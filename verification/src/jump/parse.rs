//! What the programs that the backends run print.
use super::{AttemptModel, JumpAttempt};
use crate::text::number::{
    decimal, law_decimal_digits, law_numbers_are_read_back, parse_u32, parsed_unsigned,
};
use crate::text::scan::{
    before_first, is_white, law_pieces_stand_between_separators, law_white_ends_are_trimmed,
    lemma_find_char, lines, lines_of, occurs_at, pieces, pieces_of, strip_prefix, trim, trimmed,
    words, words_of,
};
use crate::text::{same, texts};
use std::collections::HashMap;
use vstd::prelude::*;
use vstd::string::*;

verus! {

broadcast use vstd::std_specs::hash::group_hash_axioms;

/// The terminal device that `ps -o tty=` names; none for a process without one.
pub open spec fn tty_of(raw: Seq<char>) -> Option<Seq<char>> {
    let t = trimmed(raw);
    if t.len() == 0 || t == "??"@ {
        None
    } else {
        Some("/dev/"@ + t)
    }
}

/// The terminal device that `ps -o tty=` names; none for a process without one.
pub fn parse_tty(raw: &str) -> (r: Option<String>)
    ensures
        match r {
            Some(path) => tty_of(raw@) == Some(path@),
            None => tty_of(raw@) is None,
        },
{
    let t = trim(raw);
    if t.as_str().is_empty() || same(t.as_str(), "??") {
        return None;
    }
    let mut path = "/dev/".to_owned();
    path.append(t.as_str());
    Some(path)
}

/// What follows `prefix` in the first word that starts with it.
pub open spec fn after_prefix(words: Seq<Seq<char>>, prefix: Seq<char>) -> Option<Seq<char>>
    decreases words.len(),
{
    if words.len() == 0 {
        None
    } else if occurs_at(words[0], prefix, 0) {
        Some(words[0].skip(prefix.len() as int))
    } else {
        after_prefix(words.drop_first(), prefix)
    }
}

/// The value of the variable `var` in an environment that `ps eww` prints.
pub open spec fn env_value(dump: Seq<char>, var: Seq<char>) -> Option<Seq<char>> {
    after_prefix(words_of(dump), var.push('='))
}

/// The value of the variable `var` in an environment that `ps eww` prints.
pub fn parse_env_var(ps_output: &str, var: &str) -> (r: Option<String>)
    ensures
        match r {
            Some(value) => env_value(ps_output@, var@) == Some(value@),
            None => env_value(ps_output@, var@) is None,
        },
{
    let mut prefix = var.to_owned();
    prefix.push('=');
    let tokens = words(ps_output);
    let ghost all = words_of(ps_output@);
    let mut i: usize = 0;
    assert(all.skip(0) =~= all);
    while i < tokens.len()
        invariant
            i <= tokens@.len(),
            texts(tokens@) == all,
            all == words_of(ps_output@),
            prefix@ == var@.push('='),
            after_prefix(all.skip(i as int), prefix@) == after_prefix(all, prefix@),
        decreases tokens@.len() - i,
    {
        assert(texts(tokens@)[i as int] == tokens@[i as int]@);
        assert(all.skip(i as int)[0] == tokens@[i as int]@);
        assert(all.skip(i as int).drop_first() =~= all.skip(i + 1));
        match strip_prefix(tokens[i].as_str(), prefix.as_str()) {
            Some(value) => {
                return Some(value);
            },
            None => {},
        }
        i += 1;
    }
    None
}

/// What the script for iTerm2 printed: that it found the terminal, or not.
pub open spec fn script_answer(stdout: Seq<char>) -> AttemptModel {
    if trimmed(stdout) == "FOUND"@ {
        AttemptModel::Jumped
    } else {
        AttemptModel::NotApplicable
    }
}

/// What the script for iTerm2 printed: that it found the terminal, or not.
pub fn interpret_osascript(stdout: &str) -> (r: JumpAttempt)
    ensures
        r@ == script_answer(stdout@),
{
    let text = trim(stdout);
    if same(text.as_str(), "FOUND") {
        JumpAttempt::Jumped
    } else {
        JumpAttempt::NotApplicable
    }
}

/// A pane of tmux.
#[derive(Debug)]
pub struct Pane {
    pub pid: u32,
    /// Its address, `session:window.pane`.
    pub target: String,
}

pub ghost struct PaneModel {
    pub pid: u32,
    pub target: Seq<char>,
}

impl View for Pane {
    type V = PaneModel;

    open spec fn view(&self) -> PaneModel {
        PaneModel { pid: self.pid, target: self.target@ }
    }
}

/// The views of a list of panes.
pub open spec fn pane_models(v: Seq<Pane>) -> Seq<PaneModel> {
    v.map_values(|p: Pane| p@)
}

/// The pane that a line describes: a process, a space and an address.
pub open spec fn pane_of(line: Seq<char>) -> Option<PaneModel> {
    let parts = pieces_of(line, ' ', 2);
    if parts.len() == 2 {
        match parsed_unsigned(parts[0], u32::MAX as nat) {
            Some(pid) => Some(PaneModel { pid: pid as u32, target: parts[1] }),
            None => None,
        }
    } else {
        None
    }
}

/// The panes that lines describe, in their order; other lines are passed over.
pub open spec fn panes_of(lines: Seq<Seq<char>>) -> Seq<PaneModel>
    decreases lines.len(),
{
    if lines.len() == 0 {
        Seq::empty()
    } else {
        match pane_of(lines.last()) {
            Some(pane) => panes_of(lines.drop_last()).push(pane),
            None => panes_of(lines.drop_last()),
        }
    }
}

fn read_pane(line: &str) -> (r: Option<Pane>)
    ensures
        match r {
            Some(pane) => pane_of(line@) == Some(pane@),
            None => pane_of(line@) is None,
        },
{
    let parts = pieces(line, ' ', 2);
    if parts.len() != 2 {
        return None;
    }
    assert(texts(parts@)[0] == parts@[0]@);
    assert(texts(parts@)[1] == parts@[1]@);
    match parse_u32(parts[0].as_str()) {
        Some(pid) => Some(Pane { pid, target: parts[1].clone() }),
        None => None,
    }
}

/// The panes that `tmux list-panes` prints.
pub fn read_panes(list_output: &str) -> (r: Vec<Pane>)
    ensures
        pane_models(r@) == panes_of(lines_of(list_output@)),
{
    let rows = lines(list_output);
    let ghost all = lines_of(list_output@);
    let mut out: Vec<Pane> = Vec::new();
    let mut i: usize = 0;
    assert(pane_models(out@) =~= panes_of(all.take(0)));
    while i < rows.len()
        invariant
            i <= rows@.len(),
            texts(rows@) == all,
            pane_models(out@) == panes_of(all.take(i as int)),
        decreases rows@.len() - i,
    {
        assert(texts(rows@)[i as int] == rows@[i as int]@);
        assert(all.take(i + 1).last() == rows@[i as int]@);
        assert(all.take(i + 1).drop_last() =~= all.take(i as int));
        match read_pane(rows[i].as_str()) {
            Some(pane) => {
                assert(pane_models(out@.push(pane)) =~= pane_models(out@).push(pane@));
                out.push(pane);
            },
            None => {},
        }
        i += 1;
    }
    assert(all.take(i as int) =~= all);
    out
}

/// The address of the first pane whose process `is_descendant` accepts.
pub fn find_pane_target(list_output: &str, is_descendant: impl Fn(u32) -> bool) -> (r: Option<String>)
    requires
        forall|pid: u32| call_requires(is_descendant, (pid,)),
    ensures
        ({
            let panes = panes_of(lines_of(list_output@));
            match r {
                Some(target) => exists|i: int|
                    {
                        &&& 0 <= i < panes.len()
                        &&& (#[trigger] panes[i]).target == target@
                        &&& call_ensures(is_descendant, (panes[i].pid,), true)
                        &&& forall|k: int|
                            0 <= k < i ==> call_ensures(is_descendant, ((#[trigger] panes[k]).pid,), false)
                    },
                None => forall|k: int|
                    0 <= k < panes.len() ==> call_ensures(
                        is_descendant,
                        ((#[trigger] panes[k]).pid,),
                        false,
                    ),
            }
        }),
{
    let found = read_panes(list_output);
    let ghost panes = panes_of(lines_of(list_output@));
    let mut i: usize = 0;
    while i < found.len()
        invariant
            i <= found@.len(),
            panes == pane_models(found@),
            panes == panes_of(lines_of(list_output@)),
            forall|pid: u32| call_requires(is_descendant, (pid,)),
            forall|k: int|
                0 <= k < i ==> call_ensures(is_descendant, ((#[trigger] panes[k]).pid,), false),
        decreases found@.len() - i,
    {
        assert(panes[i as int] == found@[i as int]@);
        if is_descendant(found[i].pid) {
            return Some(found[i].target.clone());
        }
        i += 1;
    }
    None
}

/// The process and the parent that a line of `ps -eo pid,ppid` names.
pub open spec fn parent_of_line(line: Seq<char>) -> Option<(u32, u32)> {
    let parts = words_of(line);
    if parts.len() >= 2 {
        match (parsed_unsigned(parts[0], u32::MAX as nat), parsed_unsigned(parts[1], u32::MAX as nat)) {
            (Some(pid), Some(ppid)) => Some((pid as u32, ppid as u32)),
            _ => None,
        }
    } else {
        None
    }
}

/// The parents that lines of `ps -eo pid,ppid` name; of a process the last line counts.
pub open spec fn parents_of(lines: Seq<Seq<char>>) -> Map<u32, u32>
    decreases lines.len(),
{
    if lines.len() == 0 {
        Map::empty()
    } else {
        match parent_of_line(lines.last()) {
            Some((pid, ppid)) => parents_of(lines.drop_last()).insert(pid, ppid),
            None => parents_of(lines.drop_last()),
        }
    }
}

/// The lines of a table without its header.
pub open spec fn body_lines(output: Seq<char>) -> Seq<Seq<char>> {
    let all = lines_of(output);
    if all.len() > 0 {
        all.drop_first()
    } else {
        all
    }
}

/// Whether a walk of at most `steps` steps from a process to its parent meets
/// `ancestor`. The walk ends at the processes zero and one, at a process that is its
/// own parent, and where no parent is known.
pub open spec fn climbs_to(parents: Map<u32, u32>, current: u32, ancestor: u32, steps: nat) -> bool
    decreases steps,
{
    if steps == 0 || !parents.contains_key(current) {
        false
    } else {
        let parent = parents[current];
        if parent == ancestor {
            true
        } else if parent == 0 || parent == 1 || parent == current {
            false
        } else {
            climbs_to(parents, parent, ancestor, (steps - 1) as nat)
        }
    }
}

/// Whether `target` is `ancestor` or lies at most fifty steps below it. `ps` is what
/// `ps -eo pid,ppid` printed, if it could be run.
pub open spec fn is_below(ps: Option<Seq<char>>, target: u32, ancestor: u32) -> bool {
    target == ancestor || (ps is Some && climbs_to(
        parents_of(body_lines(ps->Some_0)),
        target,
        ancestor,
        50,
    ))
}

fn read_parent(line: &str) -> (r: Option<(u32, u32)>)
    ensures
        r == parent_of_line(line@),
{
    let parts = words(line);
    if parts.len() < 2 {
        return None;
    }
    assert(texts(parts@)[0] == parts@[0]@);
    assert(texts(parts@)[1] == parts@[1]@);
    match (parse_u32(parts[0].as_str()), parse_u32(parts[1].as_str())) {
        (Some(pid), Some(ppid)) => Some((pid, ppid)),
        _ => None,
    }
}

/// The parents that `ps -eo pid,ppid` prints.
pub fn read_parents(output: &str) -> (r: HashMap<u32, u32>)
    ensures
        r@ == parents_of(body_lines(output@)),
{
    let rows = lines(output);
    let ghost all = lines_of(output@);
    let ghost body = body_lines(output@);
    let mut out: HashMap<u32, u32> = HashMap::new();
    if rows.len() == 0 {
        return out;
    }
    let mut i: usize = 1;
    assert(out@ =~= parents_of(body.take(0)));
    while i < rows.len()
        invariant
            1 <= i <= rows@.len(),
            texts(rows@) == all,
            body == all.drop_first(),
            out@ == parents_of(body.take(i - 1)),
        decreases rows@.len() - i,
    {
        assert(texts(rows@)[i as int] == rows@[i as int]@);
        assert(body.take(i as int).last() == rows@[i as int]@);
        assert(body.take(i as int).drop_last() =~= body.take(i - 1));
        match read_parent(rows[i].as_str()) {
            Some((pid, ppid)) => {
                out.insert(pid, ppid);
            },
            None => {},
        }
        i += 1;
    }
    assert(body.take(i - 1) =~= body);
    out
}

/// Whether `target` is `ancestor` or lies at most fifty steps below it.
pub fn is_descendant_of(target: u32, ancestor: u32, ps: Option<&str>) -> (r: bool)
    ensures
        r == is_below(
            match ps {
                Some(text) => Some(text@),
                None => None,
            },
            target,
            ancestor,
        ),
{
    if target == ancestor {
        return true;
    }
    let parents = match ps {
        Some(text) => read_parents(text),
        None => {
            return false;
        },
    };
    let mut current = target;
    let mut depth: u32 = 0;
    while depth < 50
        invariant
            depth <= 50,
            target != ancestor,
            ps is Some,
            parents@ == parents_of(body_lines(ps->Some_0@)),
            climbs_to(parents@, current, ancestor, (50 - depth) as nat) == climbs_to(
                parents@,
                target,
                ancestor,
                50,
            ),
        ensures
            !climbs_to(parents@, target, ancestor, 50),
        decreases 50 - depth,
    {
        match parents.get(&current) {
            Some(parent) => {
                if *parent == ancestor {
                    return true;
                }
                if *parent == 0 || *parent == 1 || *parent == current {
                    return false;
                }
                current = *parent;
                depth += 1;
            },
            None => {
                return false;
            },
        }
    }
    false
}

/// The device is the name that `ps` prints, below `/dev/`; `??` and nothing are none.
pub proof fn law_device_stands_below_dev(before: Seq<char>, name: Seq<char>, after: Seq<char>)
    requires
        forall|i: int| 0 <= i < before.len() ==> is_white(#[trigger] before[i]),
        forall|i: int| 0 <= i < after.len() ==> is_white(#[trigger] after[i]),
        name.len() > 0 ==> !is_white(name[0]) && !is_white(name.last()),
    ensures
        name.len() > 0 && name != "??"@ ==> tty_of(before + name + after) == Some("/dev/"@ + name),
        name.len() == 0 || name == "??"@ ==> tty_of(before + name + after) is None,
{
    law_white_ends_are_trimmed(before, name, after);
}

/// A variable has the value of the first word that assigns it; a longer name is another
/// variable.
pub proof fn law_variable_is_read(dump: Seq<char>, var: Seq<char>, value: Seq<char>, k: int)
    requires
        0 <= k <= words_of(dump).len(),
        forall|i: int|
            0 <= i < k ==> !occurs_at(#[trigger] words_of(dump)[i], var + seq!['='], 0),
        k < words_of(dump).len() ==> words_of(dump)[k] == var + seq!['='] + value,
    ensures
        k < words_of(dump).len() ==> env_value(dump, var) == Some(value),
        k == words_of(dump).len() ==> env_value(dump, var) is None,
{
    assert(var + seq!['='] =~= var.push('='));
    lemma_after_prefix(words_of(dump), var.push('='), value, k);
}

proof fn lemma_after_prefix(words: Seq<Seq<char>>, prefix: Seq<char>, value: Seq<char>, k: int)
    requires
        0 <= k <= words.len(),
        forall|i: int| 0 <= i < k ==> !occurs_at(#[trigger] words[i], prefix, 0),
        k < words.len() ==> words[k] == prefix + value,
    ensures
        after_prefix(words, prefix) == if k < words.len() {
            Some(value)
        } else {
            None
        },
    decreases words.len(),
{
    if k > 0 {
        assert(!occurs_at(words[0], prefix, 0));
        let rest = words.drop_first();
        assert forall|i: int| 0 <= i < k - 1 implies !occurs_at(#[trigger] rest[i], prefix, 0) by {
            assert(rest[i] == words[i + 1]);
        }
        lemma_after_prefix(rest, prefix, value, k - 1);
    } else if words.len() > 0 {
        assert((prefix + value).subrange(0, prefix.len() as int) =~= prefix);
        assert((prefix + value).skip(prefix.len() as int) =~= value);
    }
}

/// The script found the terminal where it printed `FOUND`, and nothing else beside white
/// space.
pub proof fn law_script_says_found(stdout: Seq<char>)
    ensures
        script_answer(stdout) == AttemptModel::Jumped <==> trimmed(stdout) == "FOUND"@,
        script_answer(stdout) == AttemptModel::NotApplicable <==> trimmed(stdout) != "FOUND"@,
{
}

/// A line of a process, a space and an address describes a pane; lines without a number or
/// without a space describe none.
pub proof fn law_pane_is_read(lines: Seq<Seq<char>>, pid: u32, target: Seq<char>, line: Seq<char>)
    ensures
        panes_of(Seq::empty()).len() == 0,
        panes_of(lines.push(decimal(pid as nat) + seq![' '] + target)) == panes_of(lines).push(
            (PaneModel { pid, target }),
        ),
        !line.contains(' ') ==> panes_of(lines.push(line)) == panes_of(lines),
        parsed_unsigned(before_first(line, ' '), u32::MAX as nat) is None ==> panes_of(
            lines.push(line),
        ) == panes_of(lines),
{
    let number = decimal(pid as nat);
    let good = number + seq![' '] + target;
    law_decimal_digits(pid as nat);
    law_numbers_are_read_back(pid as nat, u32::MAX as nat);
    assert(!number.contains(' ')) by {
        if number.contains(' ') {
            let i = number.index_of(' ');
            assert('0' <= number[i] <= '9');
        }
    }
    law_pieces_stand_between_separators(number, ' ', target, 2);
    assert(good =~= number.push(' ') + target);
    assert(seq![number] + seq![target] =~= seq![number, target]);
    assert(lines.push(good).drop_last() =~= lines);
    assert(lines.push(line).drop_last() =~= lines);
    assert(lines.push(good).last() == good);
    if !line.contains(' ') {
        law_pieces_stand_between_separators(line, ' ', target, 2);
    }
    if line.contains(' ') {
        let parts = pieces_of(line, ' ', 2);
        lemma_find_char(line, ' ');
        assert(parts[0] == before_first(line, ' ')) by {
            reveal_with_fuel(pieces_of, 3);
            let k = line.index_of(' ');
            assert(line[k] == ' ');
        }
    }
}

/// A line of a process and its parent is taken in; of a process the last line counts. The
/// first line of the table is its header.
pub proof fn law_parents_are_read(lines: Seq<Seq<char>>, line: Seq<char>, pid: u32, ppid: u32)
    ensures
        parents_of(Seq::empty()) == Map::<u32, u32>::empty(),
        words_of(line).len() >= 2 && parsed_unsigned(words_of(line)[0], u32::MAX as nat) == Some(
            pid as nat,
        ) && parsed_unsigned(words_of(line)[1], u32::MAX as nat) == Some(ppid as nat)
            ==> parents_of(lines.push(line)) == parents_of(lines).insert(pid, ppid),
        words_of(line).len() < 2 || parsed_unsigned(words_of(line)[0], u32::MAX as nat) is None
            || parsed_unsigned(words_of(line)[1], u32::MAX as nat) is None ==> parents_of(
            lines.push(line),
        ) == parents_of(lines),
{
    assert(lines.push(line).drop_last() =~= lines);
}

/// The first line of a table does not count.
pub proof fn law_header_does_not_count(output: Seq<char>)
    ensures
        lines_of(output).len() > 0 ==> body_lines(output) == lines_of(output).skip(1),
        lines_of(output).len() == 0 ==> body_lines(output).len() == 0,
{
    if lines_of(output).len() > 0 {
        assert(body_lines(output) =~= lines_of(output).skip(1));
    }
}

/// A process lies below another where its parent is that one, or where its parent lies below
/// it with one step less; the walk ends at the processes zero and one, at a process that is
/// its own parent, and where no parent is known.
pub proof fn law_descent_is_walked(parents: Map<u32, u32>, current: u32, ancestor: u32, steps: nat)
    ensures
        !climbs_to(parents, current, ancestor, 0),
        !parents.contains_key(current) ==> !climbs_to(parents, current, ancestor, steps),
        parents.contains_key(current) && parents[current] == ancestor ==> climbs_to(
            parents,
            current,
            ancestor,
            steps + 1,
        ),
        parents.contains_key(current) && parents[current] != ancestor && parents[current] > 1
            && parents[current] != current ==> (climbs_to(parents, current, ancestor, steps + 1)
            <==> climbs_to(parents, parents[current], ancestor, steps)),
        parents.contains_key(current) && parents[current] != ancestor && (parents[current] <= 1
            || parents[current] == current) ==> !climbs_to(parents, current, ancestor, steps),
{
}

/// A process is its own descendant; any other is looked for in the table, at most fifty
/// steps up.
pub proof fn law_descendants_are_looked_up(ps: Seq<char>, target: u32, ancestor: u32)
    ensures
        is_below(None, target, target),
        is_below(Some(ps), target, target),
        target != ancestor ==> !is_below(None, target, ancestor),
        target != ancestor ==> (is_below(Some(ps), target, ancestor) <==> climbs_to(
            parents_of(body_lines(ps)),
            target,
            ancestor,
            50,
        )),
{
}

/// A pane shows its own fields.
pub proof fn law_pane_shows_its_fields(p: Pane)
    ensures
        p@.pid == p.pid,
        p@.target == p.target@,
{
}

} // verus!
