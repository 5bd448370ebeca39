//! Hooks of a coding agent: what an event means, and the entries of its
//! settings.json that report the events.

use vstd::prelude::*;

use crate::json::{
    alike, alike_members, entries, entry, find_member, json_reading, key_is, list_view, member,
    object_view, place, put, put_keeps_keys_apart, put_sets_one_member, put_stays_shallow,
    shallow, shallower_still, text_member, tidy, trees, Entry, Json, JsonTree, Member,
};
use crate::model::{find_from, found_is_first};
use crate::protocol::{AgentHookEvent, HookLine};
use crate::text::{glue, opt_text, same, texts};

verus! {

broadcast use vstd::string::group_string_axioms;

/// The command that the hooks of an agent run.
pub open spec fn command_of(agent: Seq<char>) -> Seq<char> {
    "tutti agent-event "@ + agent
}

/// The command that the hooks of an agent run.
pub fn hook_command(agent: &str) -> (r: String)
    ensures
        r@ == command_of(agent@),
{
    glue("tutti agent-event ", agent)
}

// ---- events --------------------------------------------------------------

/// The tool that an event is about, where it names one.
pub open spec fn tool_of(v: JsonTree) -> Option<Seq<char>> {
    match text_member(v, "tool_name"@) {
        Some(s) if s.len() > 0 => Some(s),
        _ => None,
    }
}

/// What a subagent is to do: the description of the task, or else its title.
pub open spec fn desc_of(v: JsonTree) -> Seq<char> {
    let given = match member(v, "tool_input"@) {
        Some(input) => match member(input, "description"@) {
            Some(d) => Some(d),
            None => member(input, "title"@),
        },
        None => None,
    };
    match given {
        Some(JsonTree::Text(s)) if s.len() > 0 => s,
        _ => "subagent"@,
    }
}

/// The subagent that stopped: its number, or else its kind.
pub open spec fn stopped_of(v: JsonTree) -> Seq<char> {
    let given = match member(v, "agent_id"@) {
        Some(id) => Some(id),
        None => member(v, "agent_type"@),
    };
    match given {
        Some(JsonTree::Text(s)) => s,
        _ => Seq::empty(),
    }
}

/// What an event means; most mean nothing.
pub open spec fn meaning(v: JsonTree) -> Option<HookLine> {
    match text_member(v, "hook_event_name"@) {
        Some(name) => if name == "PreToolUse"@ && tool_of(v) == Some("Task"@) {
            Some(HookLine::SubagentStarted { id: desc_of(v), desc: desc_of(v) })
        } else if name == "PreToolUse"@ || name == "PostToolUse"@ {
            Some(HookLine::Activity { detail: tool_of(v) })
        } else if name == "SubagentStop"@ {
            Some(HookLine::SubagentStopped { id: stopped_of(v) })
        } else if name == "Notification"@ {
            Some(HookLine::Blocked { message: text_member(v, "message"@) })
        } else if name == "Stop"@ {
            Some(HookLine::Done)
        } else {
            None
        },
        None => None,
    }
}

fn tool_name(v: &Json) -> (r: Option<String>)
    ensures
        opt_text(r) == tool_of(v@),
{
    match v.get_text("tool_name") {
        Some(s) => if s.is_empty() {
            None
        } else {
            Some(s.to_owned())
        },
        None => None,
    }
}

fn subagent_desc(v: &Json) -> (r: String)
    ensures
        r@ == desc_of(v@),
{
    let given: Option<&Json> = match v.get("tool_input") {
        Some(input) => match input.get("description") {
            Some(d) => Some(d),
            None => input.get("title"),
        },
        None => None,
    };
    match given {
        Some(Json::Text(s)) => if s.as_str().is_empty() {
            "subagent".to_owned()
        } else {
            s.clone()
        },
        _ => "subagent".to_owned(),
    }
}

fn subagent_id(v: &Json) -> (r: String)
    ensures
        r@ == stopped_of(v@),
{
    let given: Option<&Json> = match v.get("agent_id") {
        Some(id) => Some(id),
        None => v.get("agent_type"),
    };
    match given {
        Some(Json::Text(s)) => s.clone(),
        _ => {
            let none: String = String::new();
            assert(none@ =~= Seq::<char>::empty());
            none
        },
    }
}

/// What an event means; most mean nothing.
pub fn map_claude_event(v: &Json) -> (r: Option<AgentHookEvent>)
    ensures
        (match r {
            Some(e) => Some(e@),
            None => None,
        }) == meaning(v@),
{
    let name: &str = match v.get_text("hook_event_name") {
        Some(name) => name,
        None => {
            return None;
        },
    };
    if same(name, "PreToolUse") {
        let tool: Option<String> = tool_name(v);
        let task: bool = match &tool {
            Some(t) => same(t.as_str(), "Task"),
            None => false,
        };
        if task {
            let desc: String = subagent_desc(v);
            return Some(AgentHookEvent::SubagentStarted { id: desc.clone(), desc });
        }
        return Some(AgentHookEvent::Activity { detail: tool });
    }
    if same(name, "PostToolUse") {
        return Some(AgentHookEvent::Activity { detail: tool_name(v) });
    }
    if same(name, "SubagentStop") {
        return Some(AgentHookEvent::SubagentStopped { id: subagent_id(v) });
    }
    if same(name, "Notification") {
        let message: Option<String> = match v.get_text("message") {
            Some(s) => Some(s.to_owned()),
            None => None,
        };
        return Some(AgentHookEvent::Blocked { message });
    }
    if same(name, "Stop") {
        return Some(AgentHookEvent::Done);
    }
    None
}

/// What an event, as a hook is handed it, means.
pub fn read_event(text: &str) -> (r: Option<AgentHookEvent>)
    ensures
        (match r {
            Some(e) => Some(e@),
            None => None,
        }) == (match json_reading(text@) {
            Ok(v) => meaning(v),
            Err(_) => None,
        }),
{
    match Json::parse(text) {
        Ok(v) => map_claude_event(&v),
        Err(_) => None,
    }
}

// ---- the entries ---------------------------------------------------------

/// An object with these members.
pub open spec fn object(s: Seq<Entry>) -> JsonTree {
    JsonTree::Object(s)
}

/// A member.
pub open spec fn field(key: Seq<char>, value: JsonTree) -> Entry {
    Entry { key, value }
}

/// What runs the command.
pub open spec fn command_tree(run: Seq<char>) -> JsonTree {
    object(
        seq![
            field("type"@, JsonTree::Text("command"@)),
            field("command"@, JsonTree::Text(run)),
        ],
    )
}

/// A group of hooks that runs the command, for every tool where `matcher`.
pub open spec fn group_tree(run: Seq<char>, matcher: bool) -> JsonTree {
    let hooks = field("hooks"@, JsonTree::List(seq![command_tree(run)]));
    if matcher {
        object(seq![field("matcher"@, JsonTree::Text("*"@)), hooks])
    } else {
        object(seq![hooks])
    }
}

/// The events that are reported.
pub open spec fn event_name(k: int) -> Seq<char> {
    if k == 0 {
        "PreToolUse"@
    } else if k == 1 {
        "PostToolUse"@
    } else if k == 2 {
        "SubagentStop"@
    } else if k == 3 {
        "Notification"@
    } else {
        "Stop"@
    }
}

/// Whether the hooks of an event filter on a tool.
pub open spec fn event_matches(k: int) -> bool {
    k < 3
}

/// The entries that report every event.
pub open spec fn snippet_tree(run: Seq<char>) -> JsonTree {
    object(
        seq![
            field(
                "hooks"@,
                object(
                    Seq::new(
                        5,
                        |k: int|
                            field(
                                event_name(k),
                                JsonTree::List(seq![group_tree(run, event_matches(k))]),
                            ),
                    ),
                ),
            ),
        ],
    )
}

fn text(s: &str) -> (r: Json)
    ensures
        r@ == JsonTree::Text(s@),
{
    Json::Text(s.to_owned())
}

fn pair(key: &str, value: Json) -> (r: Member)
    ensures
        entry(r) == field(key@, value@),
{
    Member { key: key.to_owned(), value }
}

fn list_of(value: Json) -> (r: Json)
    ensures
        r@ == JsonTree::List(seq![value@]),
{
    let ghost tree = value@;
    let list: Vec<Json> = vec![value];
    proof {
        list_view(list);
        assert(trees(list@) =~= seq![tree]);
    }
    Json::List(list)
}

fn group(run: &str, matcher: bool) -> (r: Json)
    ensures
        r@ == group_tree(run@, matcher),
{
    let command: Vec<Member> = vec![
        pair("type", text("command")),
        pair("command", text(run)),
    ];
    proof {
        object_view(command);
        assert(entries(command@) =~= command_tree(run@)->Object_0);
    }
    let hooks: Member = pair("hooks", list_of(Json::Object(command)));
    let members: Vec<Member> = if matcher {
        vec![pair("matcher", text("*")), hooks]
    } else {
        vec![hooks]
    };
    proof {
        object_view(members);
        assert(entries(members@) =~= group_tree(run@, matcher)->Object_0);
    }
    Json::Object(members)
}

/// The name of an event that is reported.
fn event(k: usize) -> (r: &'static str)
    requires
        k < 5,
    ensures
        r@ == event_name(k as int),
{
    match k {
        0 => "PreToolUse",
        1 => "PostToolUse",
        2 => "SubagentStop",
        3 => "Notification",
        _ => "Stop",
    }
}

/// The entries of settings.json that report every event: each runs `run`.
pub fn claude_hooks_json(run: &str) -> (r: Json)
    ensures
        r@ == snippet_tree(run@),
{
    let ghost want = Seq::new(
        5,
        |k: int| field(event_name(k), JsonTree::List(seq![group_tree(run@, event_matches(k))])),
    );
    let mut events: Vec<Member> = Vec::new();
    for k in 0..5usize
        invariant
            want == Seq::new(
                5,
                |k: int| field(event_name(k), JsonTree::List(seq![group_tree(run@, event_matches(k))])),
            ),
            entries(events@) == want.take(k as int),
    {
        let ghost had = entries(events@);
        let one: Member = pair(event(k), list_of(group(run, k < 3)));
        let ghost line = entry(one);
        events.push(one);
        assert(entries(events@) =~= had.push(line));
        assert(entries(events@) =~= want.take(k + 1));
    }
    proof {
        object_view(events);
        assert(entries(events@) =~= want);
    }
    let top: Vec<Member> = vec![pair("hooks", Json::Object(events))];
    proof {
        object_view(top);
        assert(entries(top@) =~= snippet_tree(run@)->Object_0);
    }
    Json::Object(top)
}

/// The entries of settings.json as a text.
pub fn claude_hooks_snippet(run: &str) -> (r: String)
    ensures
        r@ == crate::json::pretty_text(crate::json::settled(snippet_tree(run@))),
{
    claude_hooks_json(run).pretty()
}

// ---- merging -------------------------------------------------------------

/// Why the entries cannot be merged.
#[derive(Debug, Clone, Copy, PartialEq, Eq, Structural)]
pub enum MergeError {
    /// The settings are no object.
    Settings,
    /// Their `hooks` are no object.
    Hooks,
    /// The hooks of an event are no list.
    Event,
}

/// Whether a hook runs the command.
pub open spec fn runs_command(run: Seq<char>, hook: JsonTree) -> bool {
    text_member(hook, "command"@) == Some(run)
}

/// The hooks of a group.
pub open spec fn hooks_in(group: JsonTree) -> Seq<JsonTree> {
    match member(group, "hooks"@) {
        Some(JsonTree::List(hooks)) => hooks,
        _ => Seq::empty(),
    }
}

/// Whether one of a group's hooks runs the command.
pub open spec fn group_reports(run: Seq<char>, group: JsonTree) -> bool {
    exists|i: int| 0 <= i < hooks_in(group).len() && runs_command(run, #[trigger] hooks_in(group)[i])
}

/// Whether one of an event's groups does.
pub open spec fn list_reports(run: Seq<char>, groups: Seq<JsonTree>) -> bool {
    exists|i: int| 0 <= i < groups.len() && group_reports(run, #[trigger] groups[i])
}

/// The groups of an event; none where it has none yet.
pub open spec fn groups_of(hooks: Seq<Entry>, event: Seq<char>) -> Seq<JsonTree> {
    match member(object(hooks), event) {
        Some(JsonTree::List(groups)) => groups,
        _ => Seq::empty(),
    }
}

/// Whether the hooks of an event are a list, or not there.
pub open spec fn event_fits(hooks: Seq<Entry>, event: Seq<char>) -> bool {
    match member(object(hooks), event) {
        Some(v) => v is List,
        None => true,
    }
}

/// The hooks once the first `n` events are reported.
pub open spec fn hooks_with(run: Seq<char>, hooks: Seq<Entry>, n: int) -> Seq<Entry>
    decreases n,
{
    if n <= 0 {
        hooks
    } else {
        let had = hooks_with(run, hooks, n - 1);
        let groups = groups_of(had, event_name(n - 1));
        if list_reports(run, groups) {
            had
        } else {
            put(
                had,
                event_name(n - 1),
                JsonTree::List(groups.push(group_tree(run, event_matches(n - 1)))),
            )
        }
    }
}

/// Which of the first `n` events were not reported yet.
pub open spec fn events_added(run: Seq<char>, hooks: Seq<Entry>, n: int) -> Seq<Seq<char>>
    decreases n,
{
    if n <= 0 {
        Seq::empty()
    } else if list_reports(run, groups_of(hooks_with(run, hooks, n - 1), event_name(n - 1))) {
        events_added(run, hooks, n - 1)
    } else {
        events_added(run, hooks, n - 1).push(event_name(n - 1))
    }
}

/// The members of the settings; none where there are no settings yet.
pub open spec fn settings_of(tree: JsonTree) -> Option<Seq<Entry>> {
    match tree {
        JsonTree::Null => Some(Seq::empty()),
        JsonTree::Object(s) => Some(s),
        _ => None,
    }
}

/// The members of their hooks; none where there are none yet.
pub open spec fn hooks_of(settings: Seq<Entry>) -> Option<Seq<Entry>> {
    match member(object(settings), "hooks"@) {
        Some(JsonTree::Object(s)) => Some(s),
        Some(_) => None,
        None => Some(Seq::empty()),
    }
}

/// Whether the hooks of every event are a list, or not there.
pub open spec fn events_fit(hooks: Seq<Entry>) -> bool {
    forall|k: int| 0 <= k < 5 ==> event_fits(hooks, #[trigger] event_name(k))
}

/// The settings with every event reported.
pub open spec fn settings_with(run: Seq<char>, settings: Seq<Entry>, hooks: Seq<Entry>) -> JsonTree {
    object(put(settings, "hooks"@, object(hooks_with(run, hooks, 5))))
}

/// What merging the entries into the settings gives: nothing where every event
/// is reported, else the settings and the events that were added.
pub open spec fn merging(run: Seq<char>, tree: JsonTree) -> Result<
    Option<(JsonTree, Seq<Seq<char>>)>,
    MergeError,
> {
    match settings_of(tree) {
        None => Err(MergeError::Settings),
        Some(settings) => match hooks_of(settings) {
            None => Err(MergeError::Hooks),
            Some(hooks) => if !events_fit(hooks) {
                Err(MergeError::Event)
            } else if events_added(run, hooks, 5).len() == 0 {
                Ok(None)
            } else {
                Ok(Some((settings_with(run, settings, hooks), events_added(run, hooks, 5))))
            },
        },
    }
}

fn reports(run: &str, group: &Json) -> (r: bool)
    ensures
        r == group_reports(run@, group@),
{
    match group.get("hooks") {
        Some(Json::List(hooks)) => {
            proof {
                list_view(*hooks);
            }
            let ghost all = trees(hooks@);
            for i in 0..hooks.len()
                invariant
                    all == trees(hooks@),
                    hooks_in(group@) == all,
                    forall|j: int| 0 <= j < i ==> !runs_command(run@, #[trigger] all[j]),
            {
                assert(all[i as int] == hooks@[i as int]@);
                match hooks[i].get_text("command") {
                    Some(c) => {
                        if same(c, run) {
                            assert(runs_command(run@, hooks_in(group@)[i as int]));
                            return true;
                        }
                    },
                    None => {},
                }
            }
            false
        },
        _ => false,
    }
}

fn any_reports(run: &str, groups: &Vec<Json>) -> (r: bool)
    ensures
        r == list_reports(run@, trees(groups@)),
{
    let ghost all = trees(groups@);
    for i in 0..groups.len()
        invariant
            all == trees(groups@),
            forall|j: int| 0 <= j < i ==> !group_reports(run@, #[trigger] all[j]),
    {
        assert(all[i as int] == groups@[i as int]@);
        if reports(run, &groups[i]) {
            return true;
        }
    }
    false
}

/// Report an event, unless it is reported already.
fn wire(run: &str, hooks: &mut Vec<Member>, name: &str, matcher: bool) -> (added: bool)
    requires
        event_fits(entries(old(hooks)@), name@),
    ensures
        added == !list_reports(run@, groups_of(entries(old(hooks)@), name@)),
        added ==> entries(final(hooks)@) == put(
            entries(old(hooks)@),
            name@,
            JsonTree::List(groups_of(entries(old(hooks)@), name@).push(group_tree(run@, matcher))),
        ),
        !added ==> entries(final(hooks)@) == entries(old(hooks)@),
{
    let ghost before = entries(hooks@);
    match find_member(hooks, name) {
        Some(i) => {
            assert(before[i as int] == entry(hooks@[i as int]));
            let done: bool = match &hooks[i].value {
                Json::List(groups) => {
                    proof {
                        list_view(*groups);
                    }
                    any_reports(run, groups)
                },
                _ => true,
            };
            if done {
                return false;
            }
            let old: Member = hooks.remove(i);
            let ghost left = hooks@;
            match old.value {
                Json::List(groups) => {
                    proof {
                        list_view(groups);
                    }
                    let mut list: Vec<Json> = groups;
                    let ghost had = trees(list@);
                    let one: Json = group(run, matcher);
                    list.push(one);
                    proof {
                        list_view(list);
                        assert(trees(list@) =~= had.push(group_tree(run@, matcher)));
                    }
                    let new: Member = pair(name, Json::List(list));
                    let ghost line = entry(new);
                    hooks.insert(i, new);
                    assert(entries(hooks@) =~= before.update(i as int, line));
                },
                _ => {},
            }
            true
        },
        None => {
            let one: Member = pair(name, list_of(group(run, matcher)));
            let ghost line = entry(one);
            hooks.push(one);
            assert(entries(hooks@) =~= before.push(line));
            assert(groups_of(before, name@).push(group_tree(run@, matcher)) =~= seq![
                group_tree(run@, matcher),
            ]);
            true
        },
    }
}

proof fn fits_stay(run: Seq<char>, hooks: Seq<Entry>, n: int)
    requires
        events_fit(hooks),
    ensures
        events_fit(hooks_with(run, hooks, n)),
    decreases n,
{
    if n > 0 {
        fits_stay(run, hooks, n - 1);
        let had = hooks_with(run, hooks, n - 1);
        let value = JsonTree::List(
            groups_of(had, event_name(n - 1)).push(group_tree(run, event_matches(n - 1))),
        );
        assert forall|k: int| 0 <= k < 5 implies event_fits(
            hooks_with(run, hooks, n),
            #[trigger] event_name(k),
        ) by {
            assert(event_fits(had, event_name(k)));
            put_sets_one_member(had, event_name(n - 1), value, event_name(k));
        }
    }
}

fn fits(hooks: &Vec<Member>, name: &str) -> (r: bool)
    ensures
        r == event_fits(entries(hooks@), name@),
{
    match find_member(hooks, name) {
        Some(i) => {
            assert(entries(hooks@)[i as int] == entry(hooks@[i as int]));
            matches!(hooks[i].value, Json::List(_))
        },
        None => true,
    }
}

/// Merge the entries into the settings, which are null where there are none
/// yet: nothing where every event is reported already, else the settings and
/// the events that were added.
pub fn merge_claude_hooks(run: &str, existing: Json) -> (r: Result<Option<(Json, Vec<String>)>, MergeError>)
    ensures
        (match r {
            Ok(Some(p)) => Ok(Some((p.0@, texts(p.1@)))),
            Ok(None) => Ok(None),
            Err(e) => Err(e),
        }) == merging(run@, existing@),
{
    let mut settings: Vec<Member> = match existing {
        Json::Null => {
            let none: Vec<Member> = Vec::new();
            assert(entries(none@) =~= Seq::empty());
            none
        },
        Json::Object(members) => {
            proof {
                object_view(members);
            }
            members
        },
        _ => {
            return Err(MergeError::Settings);
        },
    };
    let ghost top = entries(settings@);
    let at: Option<usize> = find_member(&settings, "hooks");
    let mut hooks: Vec<Member> = match at {
        Some(i) => {
            assert(top[i as int] == entry(settings@[i as int]));
            let found: Member = settings.remove(i);
            match found.value {
                Json::Object(members) => {
                    proof {
                        object_view(members);
                    }
                    members
                },
                _ => {
                    return Err(MergeError::Hooks);
                },
            }
        },
        None => {
            let none: Vec<Member> = Vec::new();
            assert(entries(none@) =~= Seq::empty());
            none
        },
    };
    let ghost start = entries(hooks@);
    let ghost rest = settings@;
    assert(hooks_of(top) == Some(start));
    for k in 0..5usize
        invariant
            start == entries(hooks@),
            settings_of(existing@) == Some(top),
            hooks_of(top) == Some(start),
            forall|j: int| 0 <= j < k ==> event_fits(start, #[trigger] event_name(j)),
    {
        if !fits(&hooks, event(k)) {
            assert(!event_fits(start, event_name(k as int)));
            return Err(MergeError::Event);
        }
    }
    let mut added: Vec<String> = Vec::new();
    assert(texts(added@) =~= events_added(run@, start, 0));
    for k in 0..5usize
        invariant
            events_fit(start),
            entries(hooks@) == hooks_with(run@, start, k as int),
            texts(added@) == events_added(run@, start, k as int),
    {
        proof {
            fits_stay(run@, start, k as int);
            assert(event_fits(hooks_with(run@, start, k as int), event_name(k as int)));
        }
        let ghost had = texts(added@);
        if wire(run, &mut hooks, event(k), k < 3) {
            added.push(event(k).to_owned());
            assert(texts(added@) =~= had.push(event_name(k as int)));
        }
    }
    assert(texts(added@).len() == added@.len());
    if added.len() == 0 {
        return Ok(None);
    }
    proof {
        object_view(hooks);
    }
    let merged: Member = pair("hooks", Json::Object(hooks));
    let ghost line = entry(merged);
    match at {
        Some(i) => {
            settings.insert(i, merged);
            assert(entries(settings@) =~= top.update(i as int, line));
        },
        None => {
            settings.push(merged);
            assert(entries(settings@) =~= top.push(line));
        },
    }
    proof {
        object_view(settings);
    }
    Ok(Some((Json::Object(settings), added)))
}

// ---- laws ----------------------------------------------------------------

proof fn the_group_reports(run: Seq<char>, matcher: bool)
    ensures
        group_reports(run, group_tree(run, matcher)),
{
    reveal_strlit("matcher");
    reveal_strlit("hooks");
    reveal_strlit("type");
    reveal_strlit("command");
    reveal_with_fuel(find_from, 3);
    let command = command_tree(run);
    assert("type"@.len() == 4 && "command"@.len() == 7);
    assert(place(command->Object_0, "command"@) == Some(1int));
    assert(runs_command(run, command));
    assert("matcher"@.len() == 7 && "hooks"@.len() == 5);
    let members = group_tree(run, matcher)->Object_0;
    if matcher {
        assert(place(members, "hooks"@) == Some(1int));
    } else {
        assert(place(members, "hooks"@) == Some(0int));
    }
    let list = seq![command_tree(run)];
    assert(hooks_in(group_tree(run, matcher)) == list);
    assert(runs_command(run, hooks_in(group_tree(run, matcher))[0]));
}

proof fn reported_once_added(run: Seq<char>, hooks: Seq<Entry>, n: int, k: int)
    requires
        0 <= k < n,
    ensures
        list_reports(run, groups_of(hooks_with(run, hooks, n), event_name(k))),
    decreases n,
{
    let had = hooks_with(run, hooks, n - 1);
    let name = event_name(n - 1);
    let groups = groups_of(had, name);
    let value = JsonTree::List(groups.push(group_tree(run, event_matches(n - 1))));
    put_sets_one_member(had, name, value, event_name(k));
    if k < n - 1 {
        reported_once_added(run, hooks, n - 1, k);
    } else if !list_reports(run, groups) {
        the_group_reports(run, event_matches(n - 1));
        let after = groups.push(group_tree(run, event_matches(n - 1)));
        assert(group_reports(run, after[groups.len() as int]));
    }
}

proof fn nothing_to_add(run: Seq<char>, hooks: Seq<Entry>, n: int)
    requires
        0 <= n <= 5,
        forall|k: int| 0 <= k < 5 ==> list_reports(run, groups_of(hooks, #[trigger] event_name(k))),
    ensures
        hooks_with(run, hooks, n) == hooks,
        events_added(run, hooks, n).len() == 0,
    decreases n,
{
    if n > 0 {
        nothing_to_add(run, hooks, n - 1);
        assert(list_reports(run, groups_of(hooks, event_name(n - 1))));
    }
}

/// Merging is idempotent: settings that the entries were merged into need
/// nothing more.
pub proof fn merging_twice_adds_nothing(run: Seq<char>, tree: JsonTree)
    requires
        merging(run, tree) matches Ok(Some(_)),
    ensures
        merging(run, (merging(run, tree)->Ok_0->0).0) == Ok::<
            Option<(JsonTree, Seq<Seq<char>>)>,
            MergeError,
        >(None),
{
    let settings = settings_of(tree)->0;
    let hooks = hooks_of(settings)->0;
    let after = hooks_with(run, hooks, 5);
    put_sets_one_member(settings, "hooks"@, object(after), "hooks"@);
    fits_stay(run, hooks, 5);
    assert forall|k: int| 0 <= k < 5 implies list_reports(run, 
        groups_of(after, #[trigger] event_name(k)),
    ) by {
        reported_once_added(run, hooks, 5, k);
    }
    nothing_to_add(run, after, 5);
}

proof fn groups_are_kept(run: Seq<char>, hooks: Seq<Entry>, n: int, name: Seq<char>)
    requires
        0 <= n,
        event_fits(hooks, name),
    ensures
        event_fits(hooks_with(run, hooks, n), name),
        groups_of(hooks, name).is_prefix_of(groups_of(hooks_with(run, hooks, n), name)),
        (forall|k: int| 0 <= k < n ==> #[trigger] event_name(k) != name) ==> member(
            object(hooks_with(run, hooks, n)),
            name,
        ) == member(object(hooks), name),
    decreases n,
{
    if n > 0 {
        groups_are_kept(run, hooks, n - 1, name);
        let had = hooks_with(run, hooks, n - 1);
        let value = JsonTree::List(
            groups_of(had, event_name(n - 1)).push(group_tree(run, event_matches(n - 1))),
        );
        put_sets_one_member(had, event_name(n - 1), value, name);
        if forall|k: int| 0 <= k < n ==> #[trigger] event_name(k) != name {
            assert(event_name(n - 1) != name);
        }
    }
}

/// Merging keeps what is there: every other member of the settings, every hook
/// of an event that is reported, before those that are added, and the hooks of
/// every other event.
pub proof fn merging_keeps_what_is_there(run: Seq<char>, tree: JsonTree, key: Seq<char>, event: Seq<char>)
    requires
        merging(run, tree) matches Ok(Some(_)),
        event_fits(hooks_of(settings_of(tree)->0)->0, event),
    ensures
        ({
            let before = settings_of(tree)->0;
            let after = settings_of((merging(run, tree)->Ok_0->0).0)->0;
            let hooks = hooks_of(before)->0;
            let merged = hooks_of(after)->0;
            &&& key != "hooks"@ ==> member(object(after), key) == member(object(before), key)
            &&& groups_of(hooks, event).is_prefix_of(groups_of(merged, event))
            &&& (forall|k: int| 0 <= k < 5 ==> #[trigger] event_name(k) != event) ==> member(
                object(merged),
                event,
            ) == member(object(hooks), event)
        }),
{
    let settings = settings_of(tree)->0;
    let hooks = hooks_of(settings)->0;
    put_sets_one_member(settings, "hooks"@, object(hooks_with(run, hooks, 5)), key);
    put_sets_one_member(settings, "hooks"@, object(hooks_with(run, hooks, 5)), "hooks"@);
    groups_are_kept(run, hooks, 5, event);
}

/// Settings that the entries were merged into have hooks.
pub proof fn merged_settings_have_hooks(run: Seq<char>, tree: JsonTree)
    requires
        merging(run, tree) matches Ok(Some(_)),
    ensures
        member((merging(run, tree)->Ok_0->0).0, "hooks"@) is Some,
{
    let settings = settings_of(tree)->0;
    let hooks = hooks_of(settings)->0;
    put_sets_one_member(settings, "hooks"@, object(hooks_with(run, hooks, 5)), "hooks"@);
}

/// Every event is reported once the entries are merged.
pub proof fn every_event_is_reported(run: Seq<char>, tree: JsonTree, k: int)
    requires
        merging(run, tree) matches Ok(Some(_)),
        0 <= k < 5,
    ensures
        list_reports(run, 
            groups_of(
                hooks_of(settings_of((merging(run, tree)->Ok_0->0).0)->0)->0,
                event_name(k),
            ),
        ),
{
    let settings = settings_of(tree)->0;
    let hooks = hooks_of(settings)->0;
    put_sets_one_member(settings, "hooks"@, object(hooks_with(run, hooks, 5)), "hooks"@);
    reported_once_added(run, hooks, 5, k);
}

proof fn groups_are_tidy(run: Seq<char>, matcher: bool)
    ensures
        tidy(group_tree(run, matcher)),
{
    reveal_strlit("matcher");
    reveal_strlit("hooks");
    reveal_strlit("type");
    reveal_strlit("command");
    reveal_with_fuel(tidy, 6);
    assert("type"@.len() == 4 && "command"@.len() == 7);
    assert("matcher"@.len() == 7 && "hooks"@.len() == 5);
    assert(tidy(command_tree(run)));
    let list = seq![command_tree(run)];
    assert forall|i: int| 0 <= i < list.len() implies tidy(#[trigger] list[i]) by {}
    assert(tidy(JsonTree::List(list)));
}

proof fn hooks_stay_tidy(run: Seq<char>, hooks: Seq<Entry>, n: int)
    requires
        tidy(object(hooks)),
    ensures
        tidy(object(hooks_with(run, hooks, n))),
    decreases n,
{
    if n > 0 {
        hooks_stay_tidy(run, hooks, n - 1);
        let had = hooks_with(run, hooks, n - 1);
        let name = event_name(n - 1);
        let groups = groups_of(had, name);
        let one = group_tree(run, event_matches(n - 1));
        groups_are_tidy(run, event_matches(n - 1));
        found_is_first(had, key_is(name), 0);
        assert(tidy(JsonTree::List(groups.push(one)))) by {
            assert forall|i: int| 0 <= i < groups.push(one).len() implies tidy(
                #[trigger] groups.push(one)[i],
            ) by {
                if i < groups.len() {
                    match place(had, name) {
                        Some(k) => {
                            assert(tidy(had[k].value));
                            assert(groups.push(one)[i] == groups[i]);
                        },
                        None => {},
                    }
                }
            }
        }
        put_keeps_keys_apart(had, name, JsonTree::List(groups.push(one)));
    }
}

/// Merging keeps every key of an object once.
pub proof fn merging_keeps_keys_apart(run: Seq<char>, tree: JsonTree)
    requires
        tidy(tree),
        merging(run, tree) matches Ok(Some(_)),
    ensures
        tidy((merging(run, tree)->Ok_0->0).0),
{
    let settings = settings_of(tree)->0;
    let hooks = hooks_of(settings)->0;
    assert(tidy(object(settings)));
    found_is_first(settings, key_is("hooks"@), 0);
    assert(tidy(object(hooks))) by {
        match place(settings, "hooks"@) {
            Some(i) => {
                assert(tidy(settings[i].value));
            },
            None => {},
        }
    }
    hooks_stay_tidy(run, hooks, 5);
    put_keeps_keys_apart(settings, "hooks"@, object(hooks_with(run, hooks, 5)));
}

proof fn groups_are_shallow(run: Seq<char>, matcher: bool)
    ensures
        shallow(group_tree(run, matcher), 3),
{
    reveal_with_fuel(shallow, 6);
    assert(shallow(command_tree(run), 1));
    let list = seq![command_tree(run)];
    assert forall|i: int| 0 <= i < list.len() implies shallow(#[trigger] list[i], 1) by {}
    assert(shallow(JsonTree::List(list), 2));
}

proof fn hooks_stay_shallow(run: Seq<char>, hooks: Seq<Entry>, n: int, depth: int)
    requires
        shallow(object(hooks), depth),
        depth >= 5,
    ensures
        shallow(object(hooks_with(run, hooks, n)), depth),
    decreases n,
{
    if n > 0 {
        hooks_stay_shallow(run, hooks, n - 1, depth);
        let had = hooks_with(run, hooks, n - 1);
        let name = event_name(n - 1);
        let groups = groups_of(had, name);
        let one = group_tree(run, event_matches(n - 1));
        groups_are_shallow(run, event_matches(n - 1));
        shallower_still(one, 3, depth - 2);
        found_is_first(had, key_is(name), 0);
        let all = groups.push(one);
        assert(shallow(JsonTree::List(all), depth - 1)) by {
            assert forall|i: int| 0 <= i < all.len() implies shallow(
                #[trigger] all[i],
                depth - 2,
            ) by {
                if i < groups.len() {
                    match place(had, name) {
                        Some(k) => {
                            assert(shallow(had[k].value, depth - 1));
                            assert(all[i] == groups[i]);
                        },
                        None => {},
                    }
                }
            }
        }
        put_stays_shallow(had, name, JsonTree::List(all), depth);
    }
}

/// Merging goes no deeper than the settings and the entries go.
pub proof fn merging_keeps_the_depth(run: Seq<char>, tree: JsonTree, depth: int)
    requires
        shallow(tree, depth),
        depth >= 6,
        merging(run, tree) matches Ok(Some(_)),
    ensures
        shallow((merging(run, tree)->Ok_0->0).0, depth),
{
    let settings = settings_of(tree)->0;
    let hooks = hooks_of(settings)->0;
    assert(shallow(object(settings), depth));
    found_is_first(settings, key_is("hooks"@), 0);
    assert(shallow(object(hooks), depth - 1)) by {
        match place(settings, "hooks"@) {
            Some(i) => {
                assert(shallow(settings[i].value, depth - 1));
            },
            None => {},
        }
    }
    hooks_stay_shallow(run, hooks, 5, depth - 1);
    put_stays_shallow(settings, "hooks"@, object(hooks_with(run, hooks, 5)), depth);
}

proof fn nothing_added_means_reported(run: Seq<char>, hooks: Seq<Entry>, n: int)
    requires
        0 <= n,
        events_added(run, hooks, n).len() == 0,
    ensures
        hooks_with(run, hooks, n) == hooks,
        forall|k: int|
            0 <= k < n ==> list_reports(run, groups_of(hooks, #[trigger] event_name(k))),
    decreases n,
{
    if n > 0 {
        nothing_added_means_reported(run, hooks, n - 1);
        assert forall|k: int| 0 <= k < n implies list_reports(
            run,
            groups_of(hooks, #[trigger] event_name(k)),
        ) by {
            if k == n - 1 {
                assert(list_reports(
                    run,
                    groups_of(hooks_with(run, hooks, n - 1), event_name(n - 1)),
                ));
            }
        }
    }
}

proof fn alike_groups_report(run: Seq<char>, a: JsonTree, b: JsonTree)
    requires
        alike(a, b),
        group_reports(run, a),
    ensures
        group_reports(run, b),
{
    let i = choose|i: int|
        0 <= i < hooks_in(a).len() && runs_command(run, #[trigger] hooks_in(a)[i]);
    assert(a is Object);
    alike_members(a, b, "hooks"@);
    assert(alike(member(a, "hooks"@)->0, member(b, "hooks"@)->0));
    assert(alike(hooks_in(a)[i], hooks_in(b)[i]));
    let hook = hooks_in(a)[i];
    assert(hook is Object);
    alike_members(hook, hooks_in(b)[i], "command"@);
    assert(runs_command(run, hooks_in(b)[i]));
}

proof fn alike_lists_report(run: Seq<char>, a: Seq<JsonTree>, b: Seq<JsonTree>)
    requires
        alike(JsonTree::List(a), JsonTree::List(b)),
        list_reports(run, a),
    ensures
        list_reports(run, b),
{
    let i = choose|i: int| 0 <= i < a.len() && group_reports(run, #[trigger] a[i]);
    assert(alike(a[i], b[i]));
    alike_groups_report(run, a[i], b[i]);
}

/// Settings that need nothing more need nothing more either once their members
/// are ordered anew and their numbers are written in another way.
pub proof fn alike_settings_need_nothing(run: Seq<char>, a: JsonTree, b: JsonTree)
    requires
        alike(a, b),
        merging(run, a) matches Ok(None),
    ensures
        merging(run, b) matches Ok(None),
{
    let settings = settings_of(a)->0;
    let hooks = hooks_of(settings)->0;
    nothing_added_means_reported(run, hooks, 5);
    assert(list_reports(run, groups_of(hooks, event_name(0))));
    assert(groups_of(hooks, event_name(0)).len() > 0);
    assert(hooks.len() > 0) by {
        found_is_first(hooks, key_is(event_name(0)), 0);
    }
    assert(a is Object && member(a, "hooks"@) == Some(object(hooks)));
    alike_members(a, b, "hooks"@);
    let other = member(b, "hooks"@)->0->Object_0;
    assert(alike(object(hooks), object(other)));
    assert forall|k: int| 0 <= k < 5 implies event_fits(other, #[trigger] event_name(k))
        && list_reports(run, groups_of(other, event_name(k))) by {
        assert(list_reports(run, groups_of(hooks, event_name(k))));
        assert(groups_of(hooks, event_name(k)).len() > 0);
        alike_members(object(hooks), object(other), event_name(k));
        alike_lists_report(run, groups_of(hooks, event_name(k)), groups_of(other, event_name(k)));
    }
    nothing_to_add(run, other, 5);
    assert(events_fit(other));
}

/// Each event that an agent reports means what it is named for: before a task a
/// subagent starts, under its description; around any other tool there is activity,
/// with the tool's name; a subagent that stops is named by its number; a notification
/// says that the agent waits, with its message; and a stop that it is done. What has
/// another name, or none, means nothing.
pub proof fn events_mean_what_they_are_named(v: JsonTree, name: Seq<char>)
    requires
        text_member(v, "hook_event_name"@) == Some(name),
    ensures
        name == "PreToolUse"@ && text_member(v, "tool_name"@) == Some("Task"@) ==> (meaning(
            v,
        ) matches Some(HookLine::SubagentStarted { id, desc }) && id == desc),
        name == "PreToolUse"@ && text_member(v, "tool_name"@) != Some("Task"@) ==> meaning(
            v,
        ) matches Some(HookLine::Activity { .. }),
        name == "PostToolUse"@ ==> meaning(v) matches Some(HookLine::Activity { .. }),
        name == "SubagentStop"@ ==> meaning(v) matches Some(HookLine::SubagentStopped { .. }),
        name == "SubagentStop"@ ==> (text_member(v, "agent_id"@) matches Some(a) ==> meaning(v)
            == Some(HookLine::SubagentStopped { id: a })),
        name == "Notification"@ ==> meaning(v) == Some(
            HookLine::Blocked { message: text_member(v, "message"@) },
        ),
        name == "Stop"@ ==> meaning(v) == Some(HookLine::Done),
        meaning(v) is Some ==> name == "PreToolUse"@ || name == "PostToolUse"@ || name
            == "SubagentStop"@ || name == "Notification"@ || name == "Stop"@,
        meaning(v) matches Some(HookLine::Activity { detail }) ==> (text_member(
            v,
            "tool_name"@,
        ) matches Some(t) ==> (t.len() > 0 ==> detail == Some(t))),
{
    reveal_strlit("PreToolUse");
    reveal_strlit("PostToolUse");
    reveal_strlit("SubagentStop");
    reveal_strlit("Notification");
    reveal_strlit("Stop");
    reveal_strlit("Task");
    assert("PreToolUse"@.len() == 10 && "PostToolUse"@.len() == 11 && "SubagentStop"@.len() == 12
        && "Notification"@.len() == 12 && "Stop"@.len() == 4);
    assert("SubagentStop"@[0] == 'S' && "Notification"@[0] == 'N');
}

/// What is reported is just what has a meaning: the entries that are installed name
/// the five events, and the tools' events for every tool.
pub proof fn reported_events_are_known(k: int)
    ensures
        event_name(0) == "PreToolUse"@ && event_matches(0),
        event_name(1) == "PostToolUse"@ && event_matches(1),
        event_name(2) == "SubagentStop"@ && event_matches(2),
        event_name(3) == "Notification"@ && !event_matches(3),
        event_name(4) == "Stop"@ && !event_matches(4),
{
}

/// A group of hooks that is installed runs the command: it holds one hook, of the
/// kind that runs a command, and that command is the one.
pub proof fn installed_groups_run_the_command(run: Seq<char>, matcher: bool)
    ensures
        group_reports(run, group_tree(run, matcher)),
        hooks_in(group_tree(run, matcher)).len() == 1,
        text_member(hooks_in(group_tree(run, matcher))[0], "type"@) == Some("command"@),
        text_member(hooks_in(group_tree(run, matcher))[0], "command"@) == Some(run),
        text_member(group_tree(run, matcher), "matcher"@) == (if matcher {
            Some("*"@)
        } else {
            None
        }),
{
    the_group_reports(run, matcher);
    reveal_strlit("matcher");
    reveal_strlit("hooks");
    reveal_strlit("type");
    reveal_strlit("command");
    assert("type"@.len() == 4 && "command"@.len() == 7);
    assert("matcher"@.len() == 7 && "hooks"@.len() == 5);
    let group = group_tree(run, matcher);
    let s = group->Object_0;
    reveal_with_fuel(find_from, 3);
    assert(key_is("hooks"@)(s.last()));
    if matcher {
        assert(!key_is("hooks"@)(s[0]));
        assert(key_is("matcher"@)(s[0]));
    } else {
        assert(!key_is("matcher"@)(s[0]));
    }
    let c = command_tree(run);
    let m = c->Object_0;
    assert(key_is("type"@)(m[0]) && !key_is("command"@)(m[0]) && key_is("command"@)(m[1]));
    assert(hooks_in(group) =~= seq![c]);
}

} // verus!
