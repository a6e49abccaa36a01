//! The forwardings that the server keeps, by the rule that opened them.

use crate::protocol::command::HdcCommand;
use crate::protocol::config::{TaskMessage, TaskMessageView};
use crate::text;
use crate::text::{concat2, concat3, copy_text, decimal_text, ends_with, join, same_text, starts_with};
use vstd::prelude::*;

verus! {

/// Which end of a forwarding listens.
#[derive(Debug, Clone, Copy, PartialEq, Eq, Structural)]
pub enum ForwardDirection {
    /// The host listens and the daemon connects.
    Forward,
    /// The daemon listens and the host connects.
    Reverse,
}

/// A forwarding. A listener of the host may have to be stopped when it is removed.
#[derive(Debug, PartialEq, Eq)]
pub struct ForwardEntry {
    pub channel_id: u32,
    pub session_id: u32,
    pub connect_key: String,
    pub direction: ForwardDirection,
    pub task_string: String,
    pub has_listener: bool,
}

/// What is known of a forwarding.
pub struct ForwardEntryView {
    pub channel_id: u32,
    pub session_id: u32,
    pub connect_key: Seq<char>,
    pub direction: ForwardDirection,
    pub task_string: Seq<char>,
    pub has_listener: bool,
}

impl View for ForwardEntry {
    type V = ForwardEntryView;

    open spec fn view(&self) -> ForwardEntryView {
        ForwardEntryView {
            channel_id: self.channel_id,
            session_id: self.session_id,
            connect_key: self.connect_key@,
            direction: self.direction,
            task_string: self.task_string@,
            has_listener: self.has_listener,
        }
    }
}

/// A forwarding under its rule.
pub struct RuleView {
    pub rule: Seq<char>,
    pub entry: ForwardEntryView,
}

/// A forwarding under its rule.
#[derive(Debug, PartialEq, Eq)]
pub struct Rule {
    pub rule: String,
    pub entry: ForwardEntry,
}

impl View for Rule {
    type V = RuleView;

    open spec fn view(&self) -> RuleView {
        RuleView { rule: self.rule@, entry: self.entry@ }
    }
}

/// What a list of rules holds.
pub open spec fn rule_views(rules: Seq<Rule>) -> Seq<RuleView> {
    Seq::new(rules.len(), |i: int| rules[i]@)
}

/// The forwardings, in the order in which their rules came.
pub struct ForwardMap {
    rules: Vec<Rule>,
}

impl View for ForwardMap {
    type V = Seq<RuleView>;

    closed spec fn view(&self) -> Seq<RuleView> {
        rule_views(self.rules@)
    }
}

/// The place of a rule, or the number of rules without it.
pub open spec fn place_of_rule(rules: Seq<RuleView>, rule: Seq<char>) -> int
    decreases rules.len(),
{
    if rules.len() == 0 || rules[0].rule == rule {
        0
    } else {
        1 + place_of_rule(rules.drop_first(), rule)
    }
}

proof fn place_of_rule_is_first(rules: Seq<RuleView>, rule: Seq<char>)
    ensures
        0 <= place_of_rule(rules, rule) <= rules.len(),
        place_of_rule(rules, rule) < rules.len() ==> rules[place_of_rule(rules, rule)].rule == rule,
        forall|i: int| 0 <= i < place_of_rule(rules, rule) ==> (#[trigger] rules[i]).rule != rule,
    decreases rules.len(),
{
    if rules.len() > 0 && rules[0].rule != rule {
        let rest = rules.drop_first();
        place_of_rule_is_first(rest, rule);
        assert forall|i: int| 0 <= i < place_of_rule(rules, rule) implies (
        #[trigger] rules[i]).rule != rule by {
            if i > 0 {
                assert(rules[i] == rest[i - 1]);
            }
        }
        if place_of_rule(rest, rule) < rest.len() {
            assert(rules[place_of_rule(rules, rule)] == rest[place_of_rule(rest, rule)]);
        }
    }
}

/// The forwardings with one under a rule, in place of the one that was there.
pub open spec fn with_rule(rules: Seq<RuleView>, rule: Seq<char>, entry: ForwardEntryView) -> Seq<
    RuleView,
> {
    let i = place_of_rule(rules, rule);
    if i < rules.len() {
        rules.update(i, RuleView { rule, entry })
    } else {
        rules.push(RuleView { rule, entry })
    }
}

/// The forwardings without the one under a rule.
pub open spec fn without_rule(rules: Seq<RuleView>, rule: Seq<char>) -> Seq<RuleView> {
    let i = place_of_rule(rules, rule);
    if i < rules.len() {
        rules.remove(i)
    } else {
        rules
    }
}

/// Whether a forwarding belongs to the device that a request is about. An empty key
/// and `any` are about every device.
pub open spec fn concerns(key: Seq<char>, entry: ForwardEntryView) -> bool {
    key.len() == 0 || key == "any"@ || entry.connect_key == key
}

/// The name of a direction.
pub open spec fn direction_name(d: ForwardDirection) -> Seq<char> {
    match d {
        ForwardDirection::Forward => "[Forward]"@,
        ForwardDirection::Reverse => "[Reverse]"@,
    }
}

/// The line that describes a forwarding.
pub open spec fn rule_line(r: RuleView) -> Seq<char> {
    r.entry.connect_key + "    "@ + r.entry.task_string + "    "@ + direction_name(
        r.entry.direction,
    )
}

/// The lines of the forwardings that a request is about.
pub open spec fn rule_lines(rules: Seq<RuleView>, key: Seq<char>) -> Seq<Seq<char>>
    decreases rules.len(),
{
    if rules.len() == 0 {
        Seq::empty()
    } else if concerns(key, rules.last().entry) {
        rule_lines(rules.drop_last(), key).push(rule_line(rules.last()))
    } else {
        rule_lines(rules.drop_last(), key)
    }
}

/// The forwardings that a request is about, or the others.
pub open spec fn rules_concerned(rules: Seq<RuleView>, key: Seq<char>, concerned: bool) -> Seq<
    RuleView,
>
    decreases rules.len(),
{
    if rules.len() == 0 {
        Seq::empty()
    } else if concerns(key, rules.last().entry) == concerned {
        rules_concerned(rules.drop_last(), key, concerned).push(rules.last())
    } else {
        rules_concerned(rules.drop_last(), key, concerned)
    }
}

/// Whether the words of a request name a rule: the whole rule, its end after a
/// blank, or its beginning before a blank.
pub open spec fn names_rule(words: Seq<char>, rule: Seq<char>) -> bool {
    rule == words || text::has_suffix(rule, " "@ + words) || text::has_prefix(rule, words + " "@)
}

/// The first forwarding that the words name and the request is about, or the number
/// of forwardings.
pub open spec fn first_named(rules: Seq<RuleView>, key: Seq<char>, words: Seq<char>) -> int
    decreases rules.len(),
{
    if rules.len() == 0 || (names_rule(words, rules[0].rule) && concerns(key, rules[0].entry)) {
        0
    } else {
        1 + first_named(rules.drop_first(), key, words)
    }
}

/// The forwarding that a request removes: the one under the words themselves,
/// whichever device it belongs to, or the first that the words name.
pub open spec fn rule_to_remove(rules: Seq<RuleView>, key: Seq<char>, words: Seq<char>) -> int {
    if place_of_rule(rules, words) < rules.len() {
        place_of_rule(rules, words)
    } else {
        first_named(rules, key, words)
    }
}

/// What the client is told of a removal.
pub open spec fn removal_text(rules: Seq<RuleView>, key: Seq<char>, words: Seq<char>) -> Result<
    Seq<char>,
    Seq<char>,
> {
    if words.len() == 0 {
        Ok(
            "Remove forward ruler success, removed "@ + text::decimal(
                rules_concerned(rules, key, true).len(),
            ) + " rulers"@,
        )
    } else {
        let i = rule_to_remove(rules, key, words);
        if i < rules.len() {
            Ok("Remove forward ruler success, ruler:"@ + rules[i].rule)
        } else {
            Err("Remove forward ruler failed, ruler is not exist "@ + words)
        }
    }
}

/// The message that tells a daemon that a forwarding is over.
pub open spec fn close_of(entry: ForwardEntryView) -> TaskMessageView {
    TaskMessageView {
        channel_id: entry.channel_id,
        command: HdcCommand::KernelChannelClose,
        payload: seq![0u8],
    }
}

/// The message that tells a daemon that a forwarding is over.
pub fn close_message(entry: &ForwardEntry) -> (r: TaskMessage)
    ensures
        r@ == close_of(entry@),
{
    let payload: Vec<u8> = vec![0];
    assert(payload@ =~= seq![0u8]);
    TaskMessage { channel_id: entry.channel_id, command: HdcCommand::KernelChannelClose, payload }
}

fn is_concerned(key: &str, entry: &ForwardEntry) -> (r: bool)
    ensures
        r == concerns(key@, entry@),
{
    key.is_empty() || same_text(key, "any") || same_text(entry.connect_key.as_str(), key)
}

fn is_named(words: &str, rule: &str) -> (r: bool)
    ensures
        r == names_rule(words@, rule@),
{
    same_text(rule, words) || ends_with(rule, concat2(" ", words).as_str()) || starts_with(
        rule,
        concat2(words, " ").as_str(),
    )
}

impl ForwardMap {
    /// No forwardings.
    pub fn new() -> (r: Self)
        ensures
            r@ == Seq::<RuleView>::empty(),
    {
        let r = ForwardMap { rules: Vec::new() };
        assert(r@ =~= Seq::<RuleView>::empty());
        r
    }

    fn find(&self, rule: &str) -> (r: usize)
        ensures
            r == place_of_rule(self@, rule@),
            r <= self.rules@.len(),
    {
        proof {
            place_of_rule_is_first(self@, rule@);
        }
        let mut i: usize = 0;
        while i < self.rules.len()
            invariant
                i <= self.rules@.len(),
                0 <= place_of_rule(self@, rule@) <= self@.len(),
                place_of_rule(self@, rule@) < self@.len() ==> self@[place_of_rule(
                    self@,
                    rule@,
                )].rule == rule@,
                forall|j: int| 0 <= j < i ==> (#[trigger] self@[j]).rule != rule@,
                forall|j: int|
                    0 <= j < place_of_rule(self@, rule@) ==> (#[trigger] self@[j]).rule != rule@,
            decreases self.rules@.len() - i,
        {
            assert(self@[i as int].rule == self.rules@[i as int].rule@);
            if same_text(self.rules[i].rule.as_str(), rule) {
                return i;
            }
            i += 1;
        }
        i
    }

    /// Puts a forwarding under a rule; says whether one was there.
    pub fn insert(&mut self, rule: String, entry: ForwardEntry) -> (r: bool)
        ensures
            final(self)@ == with_rule(old(self)@, rule@, entry@),
            r == (place_of_rule(old(self)@, rule@) < old(self)@.len()),
    {
        let ghost now = with_rule(self@, rule@, entry@);
        let i: usize = self.find(rule.as_str());
        if i < self.rules.len() {
            self.rules[i] = Rule { rule, entry };
            assert(self@ =~= now);
            true
        } else {
            self.rules.push(Rule { rule, entry });
            assert(self@ =~= now);
            false
        }
    }

    /// Removes the forwarding under a rule.
    pub fn remove(&mut self, rule: &str) -> (r: Option<Rule>)
        ensures
            final(self)@ == without_rule(old(self)@, rule@),
            match r {
                Some(x) => place_of_rule(old(self)@, rule@) < old(self)@.len() && x@ == old(
                    self,
                )@[place_of_rule(old(self)@, rule@)],
                None => place_of_rule(old(self)@, rule@) == old(self)@.len(),
            },
    {
        let ghost now = without_rule(self@, rule@);
        let i: usize = self.find(rule);
        if i < self.rules.len() {
            let x = self.rules.remove(i);
            assert(self@ =~= now);
            Some(x)
        } else {
            None
        }
    }
}

/// What a client is told of the forwardings, one line for each.
pub fn build_forward_list(forward_map: &ForwardMap, connect_key_filter: &str) -> (r: String)
    ensures
        r@ == text::joined(rule_lines(forward_map@, connect_key_filter@), "\r\n"@),
{
    let mut lines: Vec<String> = Vec::new();
    let mut i: usize = 0;
    let ghost rules = forward_map@;
    assert(text::texts(lines@) =~= rule_lines(rules.take(0), connect_key_filter@));
    while i < forward_map.rules.len()
        invariant
            i <= forward_map.rules@.len(),
            rules == forward_map@,
            text::texts(lines@) == rule_lines(rules.take(i as int), connect_key_filter@),
        decreases forward_map.rules@.len() - i,
    {
        let ghost before = text::texts(lines@);
        assert(rules.take(i + 1).drop_last() =~= rules.take(i as int));
        let e = &forward_map.rules[i].entry;
        assert(rules[i as int].entry == e@);
        if is_concerned(connect_key_filter, e) {
            let mut line = copy_text(e.connect_key.as_str());
            line.append("    ");
            line.append(e.task_string.as_str());
            line.append("    ");
            match e.direction {
                ForwardDirection::Forward => line.append("[Forward]"),
                ForwardDirection::Reverse => line.append("[Reverse]"),
            }
            lines.push(line);
            assert(text::texts(lines@) =~= before.push(rule_line(rules[i as int])));
        }
        i += 1;
    }
    assert(rules.take(i as int) =~= rules);
    join(&lines, "\r\n")
}

/// What a removal comes to: what the client is told, and the forwardings that are
/// over, of each of which the daemon is told by its [`close_message`].
#[derive(Debug, PartialEq, Eq)]
pub struct Removal {
    pub text: Result<String, String>,
    pub removed: Vec<Rule>,
}

fn remove_concerned(forward_map: &mut ForwardMap, key: &str) -> (r: Vec<Rule>)
    ensures
        final(forward_map)@ == rules_concerned(old(forward_map)@, key@, false),
        rule_views(r@) == rules_concerned(old(forward_map)@, key@, true),
{
    let ghost all = forward_map@;
    let mut kept: Vec<Rule> = Vec::new();
    let mut removed: Vec<Rule> = Vec::new();
    let mut left: usize = forward_map.rules.len();
    let ghost mut done: int = 0;
    assert(rule_views(kept@) =~= rules_concerned(all.take(0), key@, false));
    assert(rule_views(removed@) =~= rules_concerned(all.take(0), key@, true));
    while left > 0
        invariant
            left == forward_map.rules@.len(),
            0 <= done,
            done + left == all.len(),
            forward_map@ == all.skip(done),
            rule_views(kept@) == rules_concerned(all.take(done), key@, false),
            rule_views(removed@) == rules_concerned(all.take(done), key@, true),
        decreases left,
    {
        let ghost kept0 = rule_views(kept@);
        let ghost removed0 = rule_views(removed@);
        assert(forward_map@[0] == forward_map.rules@[0]@);
        let ghost rules0 = forward_map.rules@;
        let ghost views0 = forward_map@;
        let x = forward_map.rules.remove(0);
        proof {
            assert forall|k: int| 0 <= k < forward_map@.len() implies #[trigger] forward_map@[k]
                == all.skip(done + 1)[k] by {
                assert(forward_map.rules@[k] == rules0[k + 1]);
                assert(views0[k + 1] == rules0[k + 1]@);
            }
            assert(x@ == all[done]);
            assert(all.take(done + 1).drop_last() =~= all.take(done));
            assert(forward_map@ =~= all.skip(done + 1));
            done = done + 1;
        }
        if is_concerned(key, &x.entry) {
            removed.push(x);
            assert(rule_views(removed@) =~= removed0.push(x@));
        } else {
            kept.push(x);
            assert(rule_views(kept@) =~= kept0.push(x@));
        }
        left -= 1;
    }
    assert(all.take(done) =~= all);
    forward_map.rules = kept;
    removed
}

/// Removes the forwardings that a request names: all that it is about, if it names
/// none.
pub fn remove_forward_entry(
    forward_map: &mut ForwardMap,
    connect_key_filter: &str,
    spec_words: &str,
) -> (r: Removal)
    ensures
        match r.text {
            Ok(t) => removal_text(old(forward_map)@, connect_key_filter@, spec_words@) == Ok::<
                _,
                Seq<char>,
            >(t@),
            Err(t) => removal_text(old(forward_map)@, connect_key_filter@, spec_words@) == Err::<
                Seq<char>,
                _,
            >(t@),
        },
        spec_words@.len() == 0 ==> rule_views(r.removed@) == rules_concerned(
            old(forward_map)@,
            connect_key_filter@,
            true,
        ) && final(forward_map)@ == rules_concerned(
            old(forward_map)@,
            connect_key_filter@,
            false,
        ),
        spec_words@.len() > 0 ==> {
            let i = rule_to_remove(old(forward_map)@, connect_key_filter@, spec_words@);
            if i < old(forward_map)@.len() {
                rule_views(r.removed@) == seq![old(forward_map)@[i]] && final(forward_map)@ == old(
                    forward_map,
                )@.remove(i)
            } else {
                r.removed@.len() == 0 && final(forward_map)@ == old(forward_map)@
            }
        },
{
    if spec_words.is_empty() {
        let removed = remove_concerned(forward_map, connect_key_filter);
        let text = concat3(
            "Remove forward ruler success, removed ",
            decimal_text(removed.len() as u64).as_str(),
            " rulers",
        );
        return Removal { text: Ok(text), removed };
    }
    let ghost all = forward_map@;
    proof {
        place_of_rule_is_first(all, spec_words@);
    }
    let n: usize = forward_map.rules.len();
    let mut i: usize = forward_map.find(spec_words);
    if i >= n {
        i = 0;
        assert(all.skip(0) =~= all);
        while i < n && !(is_named(spec_words, forward_map.rules[i].rule.as_str()) && is_concerned(
            connect_key_filter,
            &forward_map.rules[i].entry,
        ))
            invariant
                n == forward_map.rules@.len(),
                i <= n,
                all == forward_map@,
                first_named(all, connect_key_filter@, spec_words@) == i + first_named(
                    all.skip(i as int),
                    connect_key_filter@,
                    spec_words@,
                ),
            ensures
                i <= n,
                first_named(all, connect_key_filter@, spec_words@) == i,
            decreases n - i,
        {
            proof {
                assert(all.skip(i as int)[0] == forward_map.rules@[i as int]@);
                assert(all.skip(i as int).drop_first() =~= all.skip(i + 1));
            }
            i += 1;
        }
    }
    assert(i == rule_to_remove(all, connect_key_filter@, spec_words@));
    if i < n {
        let x = forward_map.rules.remove(i);
        let text = concat2("Remove forward ruler success, ruler:", x.rule.as_str());
        let mut removed: Vec<Rule> = Vec::new();
        assert(x@ == all[i as int]);
        removed.push(x);
        assert(rule_views(removed@) =~= seq![all[i as int]]);
        assert(forward_map@ =~= all.remove(i as int));
        Removal { text: Ok(text), removed }
    } else {
        Removal {
            text: Err(
                concat2("Remove forward ruler failed, ruler is not exist ", spec_words),
            ),
            removed: Vec::new(),
        }
    }
}

/// Removing everything that a request is about and keeping the rest loses nothing.
pub proof fn removal_splits(rules: Seq<RuleView>, key: Seq<char>)
    ensures
        rules_concerned(rules, key, true).len() + rules_concerned(rules, key, false).len()
            == rules.len(),
        forall|i: int|
            0 <= i < rules_concerned(rules, key, false).len() ==> !concerns(
                key,
                (#[trigger] rules_concerned(rules, key, false)[i]).entry,
            ),
        forall|i: int|
            0 <= i < rules_concerned(rules, key, true).len() ==> concerns(
                key,
                (#[trigger] rules_concerned(rules, key, true)[i]).entry,
            ),
    decreases rules.len(),
{
    if rules.len() > 0 {
        removal_splits(rules.drop_last(), key);
    }
}

/// The list of the forwardings holds the line of every forwarding of the device, or of all
/// devices where none is named, and no other line.
pub proof fn forwardings_are_listed(rules: Seq<RuleView>, key: Seq<char>, line: Seq<char>)
    ensures
        rule_lines(rules, key).contains(line) <==> exists|i: int|
            0 <= i < rules.len() && (key == Seq::<char>::empty() || key == "any"@ || (
            #[trigger] rules[i]).entry.connect_key == key) && line == rules[i].entry.connect_key
                + "    "@ + rules[i].entry.task_string + "    "@ + (match rules[i].entry.direction {
                ForwardDirection::Forward => "[Forward]"@,
                ForwardDirection::Reverse => "[Reverse]"@,
            }),
    decreases rules.len(),
{
    assert(key.len() == 0 <==> key =~= Seq::<char>::empty());
    if rules.len() > 0 {
        let rest = rules.drop_last();
        let before = rule_lines(rest, key);
        let now = rule_lines(rules, key);
        let r = rules.last();
        assert(r == rules[rules.len() - 1]);
        forwardings_are_listed(rest, key, line);
        if now.contains(line) {
            let k = choose|k: int| 0 <= k < now.len() && now[k] == line;
            if k < before.len() {
                assert(before[k] == line);
                let i = choose|i: int|
                    0 <= i < rest.len() && (key == Seq::<char>::empty() || key == "any"@ || (
                    #[trigger] rest[i]).entry.connect_key == key) && line == rule_line(rest[i]);
                assert(rules[i] == rest[i]);
            } else {
                assert(line == rule_line(rules[rules.len() - 1]));
            }
        }
        if exists|i: int|
            0 <= i < rules.len() && concerns(key, (#[trigger] rules[i]).entry) && line == rule_line(
                rules[i],
            ) {
            let i = choose|i: int|
                0 <= i < rules.len() && concerns(key, (#[trigger] rules[i]).entry) && line
                    == rule_line(rules[i]);
            if i < rest.len() {
                assert(rest[i] == rules[i]);
                assert(before.contains(line));
                let k = choose|k: int| 0 <= k < before.len() && before[k] == line;
                assert(now[k] == line);
            } else {
                assert(now[now.len() - 1] == line);
            }
        }
    }
}

/// A forwarding that was added is there, once, in place of the one under the same rule; the
/// others stay as they were.
pub proof fn added_is_there(rules: Seq<RuleView>, rule: Seq<char>, entry: ForwardEntryView, i: int)
    ensures
        with_rule(rules, rule, entry).contains(RuleView { rule, entry }),
        place_of_rule(with_rule(rules, rule, entry), rule) < with_rule(rules, rule, entry).len(),
        0 <= i < rules.len() && rules[i].rule != rule ==> with_rule(rules, rule, entry)[i]
            == rules[i],
        with_rule(rules, rule, entry).len() == rules.len() + (if exists|j: int|
            0 <= j < rules.len() && (#[trigger] rules[j]).rule == rule {
            0int
        } else {
            1
        }),
{
    let now = with_rule(rules, rule, entry);
    let p = place_of_rule(rules, rule);
    place_of_rule_is_first(rules, rule);
    place_of_rule_is_first(now, rule);
    if p < rules.len() {
        assert(now[p] == RuleView { rule, entry });
        assert(rules[p].rule == rule);
    } else {
        assert(now[rules.len() as int] == RuleView { rule, entry });
    }
}

/// The words of a request to remove name a forwarding by both its nodes, or by one of them.
pub proof fn nodes_name_a_rule(a: Seq<char>, b: Seq<char>)
    ensures
        names_rule(a + " "@ + b, a + " "@ + b),
        names_rule(a, a + " "@ + b),
        names_rule(b, a + " "@ + b),
{
    let rule = a + " "@ + b;
    reveal_strlit(" ");
    assert(rule.subrange(0, (a + " "@).len() as int) =~= a + " "@);
    assert(rule =~= a + (" "@ + b));
    assert(rule.subrange(rule.len() - (" "@ + b).len(), rule.len() as int) =~= " "@ + b);
}

proof fn first_named_is_first(rules: Seq<RuleView>, key: Seq<char>, words: Seq<char>)
    ensures
        0 <= first_named(rules, key, words) <= rules.len(),
        first_named(rules, key, words) < rules.len() ==> names_rule(
            words,
            rules[first_named(rules, key, words)].rule,
        ) && concerns(key, rules[first_named(rules, key, words)].entry),
        forall|i: int|
            0 <= i < first_named(rules, key, words) ==> !(names_rule(
                words,
                (#[trigger] rules[i]).rule,
            ) && concerns(key, rules[i].entry)),
    decreases rules.len(),
{
    if rules.len() > 0 && !(names_rule(words, rules[0].rule) && concerns(key, rules[0].entry)) {
        let rest = rules.drop_first();
        first_named_is_first(rest, key, words);
        let n = first_named(rules, key, words);
        assert forall|i: int| 0 <= i < n implies !(names_rule(words, (#[trigger] rules[i]).rule)
            && concerns(key, rules[i].entry)) by {
            if i > 0 {
                assert(rules[i] == rest[i - 1]);
            }
        }
        if n < rules.len() {
            assert(rules[n] == rest[n - 1]);
        }
    }
}

/// A request to remove with words is about a forwarding that they name: the one whose rule they
/// are, or else the first of the device that they name; the user is told which one it was.
/// Where there is none, the user is told so and nothing is removed.
pub proof fn named_is_removed(rules: Seq<RuleView>, key: Seq<char>, words: Seq<char>)
    requires
        words.len() > 0,
    ensures
        ({
            let i = rule_to_remove(rules, key, words);
            &&& 0 <= i <= rules.len()
            &&& i < rules.len() ==> (rules[i].rule == words || (names_rule(words, rules[i].rule)
                && (key == Seq::<char>::empty() || key == "any"@ || rules[i].entry.connect_key
                == key))) && removal_text(rules, key, words) == Ok::<Seq<char>, Seq<char>>(
                "Remove forward ruler success, ruler:"@ + rules[i].rule,
            )
            &&& i == rules.len() ==> removal_text(rules, key, words) == Err::<
                Seq<char>,
                Seq<char>,
            >("Remove forward ruler failed, ruler is not exist "@ + words)
            &&& (exists|j: int|
                0 <= j < rules.len() && (#[trigger] rules[j]).rule == words) ==> i < rules.len()
                && rules[i].rule == words
            &&& (exists|j: int|
                0 <= j < rules.len() && names_rule(words, (#[trigger] rules[j]).rule)
                    && rules[j].entry.connect_key == key) ==> i < rules.len()
        }),
{
    place_of_rule_is_first(rules, words);
    first_named_is_first(rules, key, words);
    assert(key.len() == 0 <==> key =~= Seq::<char>::empty());
}

/// A request to remove without words is about all forwardings of the device, or of all devices
/// where none is named; how many there were is told. Those of other devices stay.
pub proof fn all_of_a_device_are_removed(rules: Seq<RuleView>, key: Seq<char>, r: RuleView)
    ensures
        removal_text(rules, key, Seq::empty()) == Ok::<Seq<char>, Seq<char>>(
            "Remove forward ruler success, removed "@ + text::decimal(
                rules_concerned(rules, key, true).len(),
            ) + " rulers"@,
        ),
        rules_concerned(rules, key, true).contains(r) <==> rules.contains(r) && (key == Seq::<
            char,
        >::empty() || key == "any"@ || r.entry.connect_key == key),
        rules_concerned(rules, key, false).contains(r) <==> rules.contains(r) && !(key == Seq::<
            char,
        >::empty() || key == "any"@ || r.entry.connect_key == key),
{
    assert(key.len() == 0 <==> key =~= Seq::<char>::empty());
    concerned_are_contained(rules, key, true, r);
    concerned_are_contained(rules, key, false, r);
}

proof fn concerned_are_contained(rules: Seq<RuleView>, key: Seq<char>, concerned: bool, r: RuleView)
    ensures
        rules_concerned(rules, key, concerned).contains(r) <==> rules.contains(r) && concerns(
            key,
            r.entry,
        ) == concerned,
    decreases rules.len(),
{
    if rules.len() > 0 {
        let rest = rules.drop_last();
        let before = rules_concerned(rest, key, concerned);
        let now = rules_concerned(rules, key, concerned);
        concerned_are_contained(rest, key, concerned, r);
        if now.contains(r) {
            let k = choose|k: int| 0 <= k < now.len() && now[k] == r;
            if k < before.len() {
                assert(before[k] == r);
                let j = choose|j: int| 0 <= j < rest.len() && rest[j] == r;
                assert(rules[j] == r);
            } else {
                assert(rules[rules.len() - 1] == r);
            }
        }
        if rules.contains(r) && concerns(key, r.entry) == concerned {
            let j = choose|j: int| 0 <= j < rules.len() && rules[j] == r;
            if j < rest.len() {
                assert(rest[j] == r);
                let k = choose|k: int| 0 <= k < before.len() && before[k] == r;
                assert(now[k] == r);
            } else {
                assert(now[now.len() - 1] == r);
            }
        }
    }
}

/// The end of a forwarding closes its channel: the message is the one that ends a channel.
pub proof fn end_closes_the_channel(entry: ForwardEntryView)
    ensures
        close_of(entry).channel_id == entry.channel_id,
        close_of(entry).command == HdcCommand::KernelChannelClose,
        close_of(entry).payload == seq![0u8],
{
}

} // verus!
