//! The audit log of the hooks: one line per decision, fields separated by ` | `.
use vstd::prelude::*;
use vstd::string::StringExecFns;

use crate::text::{chars_of, same_text};

verus! {

/// What stands in the log for one character of a field.
pub open spec fn escaped(c: char) -> Seq<char> {
    if c == '\\' {
        seq!['\\', '\\']
    } else if c == '|' {
        seq!['\\', '|']
    } else if c == '\n' {
        seq!['\\', 'n']
    } else if c == '\r' {
        seq!['\\', 'r']
    } else {
        seq![c]
    }
}

/// What stands in the log for a field: every character escaped.
pub open spec fn sanitized(s: Seq<char>) -> Seq<char>
    decreases s.len(),
{
    if s.len() == 0 {
        seq![]
    } else {
        sanitized(s.drop_last()) + escaped(s.last())
    }
}

/// Escapes newlines and separators, so that a field can neither end a line of the log nor
/// pass for two fields.
pub fn sanitize_log_field(s: &str) -> (res: String)
    ensures
        res@ == sanitized(s@),
{
    let chars = chars_of(s);
    let mut res = String::new();
    let mut i: usize = 0;
    assert(s@.take(0) =~= seq![]);
    while i < chars.len()
        invariant
            i <= chars.len(),
            chars@ == s@,
            res@ == sanitized(s@.take(i as int)),
        decreases chars.len() - i,
    {
        let c = chars[i];
        assert(s@.take(i + 1).drop_last() =~= s@.take(i as int));
        let ghost before = res@;
        if c == '\\' {
            res.push('\\');
            res.push('\\');
        } else if c == '|' {
            res.push('\\');
            res.push('|');
        } else if c == '\n' {
            res.push('\\');
            res.push('n');
        } else if c == '\r' {
            res.push('\\');
            res.push('r');
        } else {
            res.push(c);
        }
        assert(res@ =~= before + escaped(c));
        i += 1;
    }
    assert(s@.take(i as int) =~= s@);
    res
}

/// A decision worth a line in the audit log.
#[derive(Debug, PartialEq, Eq)]
pub struct AuditEntry {
    pub action: String,
    pub original: String,
    pub rewritten: String,
}

/// What an audit entry says.
#[verifier::ext_equal]
pub struct AuditView {
    pub action: Seq<char>,
    pub original: Seq<char>,
    pub rewritten: Seq<char>,
}

impl View for AuditEntry {
    type V = AuditView;

    open spec fn view(&self) -> AuditView {
        AuditView {
            action: self.action@,
            original: self.original@,
            rewritten: self.rewritten@,
        }
    }
}

impl AuditEntry {
    pub fn new(action: &str, original: &str, rewritten: &str) -> (res: AuditEntry)
        ensures
            res@ == (AuditView {
                action: action@,
                original: original@,
                rewritten: rewritten@,
            }),
    {
        AuditEntry {
            action: action.to_owned(),
            original: original.to_owned(),
            rewritten: rewritten.to_owned(),
        }
    }
}

/// What stands between two fields of a line.
pub open spec fn separator() -> Seq<char> {
    seq![' ', '|', ' ']
}

/// The line for an entry: time, action, original command, rewritten command.
pub open spec fn line_of(time: Seq<char>, entry: AuditView) -> Seq<char> {
    time + separator() + entry.action + separator() + sanitized(entry.original) + separator()
        + sanitized(entry.rewritten)
}

/// The audit log is written only if its variable in the environment is `1`.
pub fn audit_enabled(variable: Option<&str>) -> (res: bool)
    ensures
        res == match variable {
            Some(value) => value@ == "1"@,
            None => false,
        },
{
    match variable {
        Some(value) => same_text(value, "1"),
        None => false,
    }
}

/// The line that the audit log gets for an entry, without the newline behind it.
pub fn audit_line(time: &str, entry: &AuditEntry) -> (res: String)
    ensures
        res@ == line_of(time@, entry@),
{
    proof {
        reveal_strlit(" | ");
        assert(" | "@ =~= separator());
    }
    let mut line = time.to_owned();
    line.append(" | ");
    line.append(entry.action.as_str());
    line.append(" | ");
    line.append(sanitize_log_field(entry.original.as_str()).as_str());
    line.append(" | ");
    line.append(sanitize_log_field(entry.rewritten.as_str()).as_str());
    line
}

/// What stands in the log for a command and a further one behind it.
proof fn lemma_sanitized_concat(a: Seq<char>, b: Seq<char>)
    ensures
        sanitized(a + b) == sanitized(a) + sanitized(b),
    decreases b.len(),
{
    if b.len() == 0 {
        assert(a + b =~= a);
        assert(sanitized(a) + sanitized(b) =~= sanitized(a));
    } else {
        lemma_sanitized_concat(a, b.drop_last());
        assert((a + b).drop_last() =~= a + b.drop_last());
        assert(sanitized(a) + (sanitized(b.drop_last()) + escaped(b.last())) =~= (sanitized(a)
            + sanitized(b.drop_last())) + escaped(b.last()));
    }
}

/// Every occurrence of a character replaced by a text.
pub open spec fn replaced(s: Seq<char>, c: char, by: Seq<char>) -> Seq<char>
    decreases s.len(),
{
    if s.len() == 0 {
        seq![]
    } else {
        replaced(s.drop_last(), c, by) + if s.last() == c {
            by
        } else {
            seq![s.last()]
        }
    }
}

proof fn lemma_replaced_concat(a: Seq<char>, b: Seq<char>, c: char, by: Seq<char>)
    ensures
        replaced(a + b, c, by) == replaced(a, c, by) + replaced(b, c, by),
    decreases b.len(),
{
    if b.len() == 0 {
        assert(a + b =~= a);
        assert(replaced(a, c, by) + replaced(b, c, by) =~= replaced(a, c, by));
    } else {
        lemma_replaced_concat(a, b.drop_last(), c, by);
        assert((a + b).drop_last() =~= a + b.drop_last());
        assert(replaced(a + b, c, by) =~= replaced(a, c, by) + replaced(b, c, by));
    }
}

proof fn lemma_replaced_one(d: char, c: char, by: Seq<char>)
    ensures
        replaced(seq![d], c, by) == if d == c {
            by
        } else {
            seq![d]
        },
{
    reveal_with_fuel(replaced, 2);
    assert(seq![d].drop_last() =~= seq![]);
    assert(replaced(seq![d], c, by) =~= if d == c {
        by
    } else {
        seq![d]
    });
}

proof fn lemma_replaced_two(d: char, e: char, c: char, by: Seq<char>)
    ensures
        replaced(seq![d, e], c, by) == replaced(seq![d], c, by) + replaced(seq![e], c, by),
{
    assert(seq![d, e] =~= seq![d] + seq![e]);
    lemma_replaced_concat(seq![d], seq![e], c, by);
}

/// The escapes replace backslashes, bars, newlines and carriage returns one after the other:
/// no replacement touches what an earlier one has put in.
pub proof fn law_escapes_in_succession(s: Seq<char>)
    ensures
        sanitized(s) == replaced(
            replaced(
                replaced(replaced(s, '\\', seq!['\\', '\\']), '|', seq!['\\', '|']),
                '\n',
                seq!['\\', 'n'],
            ),
            '\r',
            seq!['\\', 'r'],
        ),
    decreases s.len(),
{
    if s.len() > 0 {
        law_escapes_in_succession(s.drop_last());
        let c = s.last();
        let (q1, q2, q3, q4) = (
            seq!['\\', '\\'],
            seq!['\\', '|'],
            seq!['\\', 'n'],
            seq!['\\', 'r'],
        );
        let a1 = replaced(s.drop_last(), '\\', q1);
        let b1 = if c == '\\' { q1 } else { seq![c] };
        let a2 = replaced(a1, '|', q2);
        let b2 = replaced(b1, '|', q2);
        let a3 = replaced(a2, '\n', q3);
        let b3 = replaced(b2, '\n', q3);
        lemma_replaced_concat(a1, b1, '|', q2);
        lemma_replaced_concat(a2, b2, '\n', q3);
        lemma_replaced_concat(a3, b3, '\r', q4);
        lemma_replaced_one(c, '|', q2);
        lemma_replaced_one(c, '\n', q3);
        lemma_replaced_one(c, '\r', q4);
        lemma_replaced_one('\\', '|', q2);
        lemma_replaced_one('\\', '\n', q3);
        lemma_replaced_one('\\', '\r', q4);
        lemma_replaced_one('|', '\n', q3);
        lemma_replaced_one('|', '\r', q4);
        lemma_replaced_one('n', '\r', q4);
        lemma_replaced_two('\\', '\\', '|', q2);
        lemma_replaced_two('\\', '\\', '\n', q3);
        lemma_replaced_two('\\', '\\', '\r', q4);
        lemma_replaced_two('\\', '|', '\n', q3);
        lemma_replaced_two('\\', '|', '\r', q4);
        lemma_replaced_two('\\', 'n', '\r', q4);
        assert(seq!['\\'] + seq!['\\'] =~= q1);
        assert(seq!['\\'] + seq!['|'] =~= q2);
        assert(seq!['\\'] + seq!['n'] =~= q3);
        assert(replaced(b3, '\r', q4) == escaped(c));
    }
}

/// Whether no bar follows a space.
pub open spec fn bars_guarded(s: Seq<char>) -> bool {
    forall|i: int| #![trigger s[i]] 0 <= i < s.len() - 1 && s[i] == ' ' ==> s[i + 1] != '|'
}

/// A sanitized field holds no newline, no carriage return and no separator.
pub proof fn law_field_stays_in_place(s: Seq<char>)
    ensures
        forall|i: int|
            0 <= i < sanitized(s).len() ==> #[trigger] sanitized(s)[i] != '\n' && sanitized(s)[i]
                != '\r',
        bars_guarded(sanitized(s)),
        forall|i: int|
            0 <= i <= sanitized(s).len() - 3 ==> #[trigger] sanitized(s).subrange(i, i + 3)
                != separator(),
    decreases s.len(),
{
    let t = sanitized(s);
    if s.len() > 0 {
        let head = sanitized(s.drop_last());
        law_field_stays_in_place(s.drop_last());
        let tail = escaped(s.last());
        assert(t == head + tail);
        assert(tail[0] != '|');
        assert forall|i: int| 0 <= i < t.len() implies #[trigger] t[i] != '\n' && t[i] != '\r' by {
            if i < head.len() {
                assert(t[i] == head[i]);
            } else {
                assert(t[i] == tail[i - head.len()]);
            }
        }
        assert forall|i: int| #![trigger t[i]] 0 <= i < t.len() - 1 && t[i] == ' ' implies t[i + 1]
            != '|' by {
            if i + 1 < head.len() {
                assert(head[i] == ' ');
                assert(t[i + 1] == head[i + 1]);
            } else if i + 1 == head.len() {
                assert(t[i + 1] == tail[0]);
            } else {
                assert(t[i] == tail[i - head.len()]);
            }
        }
    }
    assert forall|i: int| 0 <= i <= t.len() - 3 implies #[trigger] t.subrange(i, i + 3)
        != separator() by {
        let part = t.subrange(i, i + 3);
        assert(part[0] == t[i] && part[1] == t[i + 1]);
        assert(separator()[0] == ' ' && separator()[1] == '|');
    }
}

/// The field that a sanitized one stands for.
pub open spec fn restored(s: Seq<char>) -> Seq<char>
    decreases s.len(),
{
    if s.len() == 0 {
        seq![]
    } else if s[0] != '\\' || s.len() == 1 {
        seq![s[0]] + restored(s.skip(1))
    } else {
        let c = if s[1] == 'n' {
            '\n'
        } else if s[1] == 'r' {
            '\r'
        } else {
            s[1]
        };
        seq![c] + restored(s.skip(2))
    }
}

/// Nothing is lost in the log: the field can be read back from what stands there.
pub proof fn law_field_can_be_restored(s: Seq<char>)
    ensures
        restored(sanitized(s)) == s,
    decreases s.len(),
{
    if s.len() > 0 {
        let (first, rest) = (s[0], s.drop_first());
        law_field_can_be_restored(rest);
        assert(s =~= seq![first] + rest);
        lemma_sanitized_concat(seq![first], rest);
        reveal_with_fuel(sanitized, 2);
        assert(seq![first].drop_last() =~= seq![]);
        assert(sanitized(seq![first]) =~= escaped(first));
        let t = sanitized(s);
        assert(t == escaped(first) + sanitized(rest));
        assert(t.skip(escaped(first).len() as int) =~= sanitized(rest));
        assert(seq![first] + restored(sanitized(rest)) =~= s);
    }
}

/// The fields of `field` followed by `rest`, where `field` has been read already.
pub open spec fn fields_after(field: Seq<char>, rest: Seq<char>) -> Seq<Seq<char>>
    decreases rest.len(),
{
    if rest.len() == 0 {
        seq![field]
    } else if rest.len() >= 3 && rest.take(3) == separator() {
        seq![field] + fields_after(seq![], rest.skip(3))
    } else {
        fields_after(field.push(rest[0]), rest.drop_first())
    }
}

/// The fields of a line: what stands between its separators.
pub open spec fn fields(line: Seq<char>) -> Seq<Seq<char>> {
    fields_after(seq![], line)
}

/// No bar comes to follow a space when the first character goes.
proof fn lemma_bars_guarded_shorter(s: Seq<char>)
    requires
        s.len() > 0,
        bars_guarded(s),
    ensures
        bars_guarded(s.drop_first()),
{
    let shorter = s.drop_first();
    assert forall|i: int| #![trigger shorter[i]] 0 <= i < shorter.len() - 1 && shorter[i]
        == ' ' implies shorter[i + 1] != '|' by {
        assert(s[i + 1] == ' ');
        assert(s[i + 1 + 1] == shorter[i + 1]);
    }
}

/// A field without bars behind spaces is read as one field up to the separator behind it.
proof fn lemma_field_before_separator(read: Seq<char>, field: Seq<char>, rest: Seq<char>)
    requires
        bars_guarded(field),
    ensures
        fields_after(read, field + separator() + rest) == seq![read + field] + fields_after(
            seq![],
            rest,
        ),
    decreases field.len(),
{
    let all = field + separator() + rest;
    if field.len() == 0 {
        assert(all.take(3) =~= separator());
        assert(all.skip(3) =~= rest);
        assert(read + field =~= read);
    } else {
        assert(all[0] == field[0]);
        assert(all.take(3) != separator()) by {
            if all.take(3) == separator() {
                assert(all.take(3)[0] == ' ' && all.take(3)[1] == '|');
                assert(all[0] == ' ' && all[1] == '|');
                if field.len() == 1 {
                    assert(all[1] == separator()[0]);
                } else {
                    assert(field[0] == ' ' && field[1] == '|');
                }
            }
        }
        let shorter = field.drop_first();
        lemma_bars_guarded_shorter(field);
        lemma_field_before_separator(read.push(field[0]), shorter, rest);
        assert(all.drop_first() =~= shorter + separator() + rest);
        assert(read.push(field[0]) + shorter =~= read + field);
    }
}

/// A last field without bars behind spaces is read as one field.
proof fn lemma_last_field(read: Seq<char>, field: Seq<char>)
    requires
        bars_guarded(field),
    ensures
        fields_after(read, field) == seq![read + field],
    decreases field.len(),
{
    if field.len() == 0 {
        assert(read + field =~= read);
    } else {
        assert(field.len() >= 3 ==> field.take(3) != separator()) by {
            if field.len() >= 3 && field.take(3) == separator() {
                assert(field.take(3)[0] == ' ' && field.take(3)[1] == '|');
                assert(field[0] == ' ' && field[1] == '|');
            }
        }
        let shorter = field.drop_first();
        lemma_bars_guarded_shorter(field);
        lemma_last_field(read.push(field[0]), shorter);
        assert(read.push(field[0]) + shorter =~= read + field);
    }
}

/// A line splits at its separators into exactly its four fields, whatever the commands hold,
/// as long as time and action hold no bar.
pub proof fn law_line_has_four_fields(time: Seq<char>, entry: AuditView)
    requires
        !time.contains('|'),
        !entry.action.contains('|'),
    ensures
        fields(line_of(time, entry)) == seq![
            time,
            entry.action,
            sanitized(entry.original),
            sanitized(entry.rewritten),
        ],
{
    let (o, r) = (sanitized(entry.original), sanitized(entry.rewritten));
    law_field_stays_in_place(entry.original);
    law_field_stays_in_place(entry.rewritten);
    let empty: Seq<char> = seq![];
    let after_original = r;
    let after_action = o + separator() + r;
    let after_time = entry.action + separator() + after_action;
    assert(bars_guarded(time));
    assert(bars_guarded(entry.action));
    lemma_last_field(empty, r);
    lemma_field_before_separator(empty, o, after_original);
    lemma_field_before_separator(empty, entry.action, after_action);
    lemma_field_before_separator(empty, time, after_time);
    assert(line_of(time, entry) =~= time + separator() + after_time);
    assert(empty + time =~= time);
    assert(empty + entry.action =~= entry.action);
    assert(empty + o =~= o);
    assert(empty + r =~= r);
    assert(fields(line_of(time, entry)) =~= seq![time, entry.action, o, r]);
}

/// An entry stands on one line, as long as time and action do.
pub proof fn law_entry_is_one_line(time: Seq<char>, entry: AuditView)
    requires
        !time.contains('\n') && !time.contains('\r'),
        !entry.action.contains('\n') && !entry.action.contains('\r'),
    ensures
        !line_of(time, entry).contains('\n'),
        !line_of(time, entry).contains('\r'),
{
    law_field_stays_in_place(entry.original);
    law_field_stays_in_place(entry.rewritten);
    let line = line_of(time, entry);
    let (o, r) = (sanitized(entry.original), sanitized(entry.rewritten));
    assert forall|i: int| 0 <= i < line.len() implies #[trigger] line[i] != '\n' && line[i]
        != '\r' by {
        let t1 = time.len() as int;
        let t2 = t1 + 3 + entry.action.len();
        let t3 = t2 + 3 + o.len();
        if i < t1 {
            assert(line[i] == time[i]);
        } else if i < t1 + 3 {
            assert(line[i] == separator()[i - t1]);
        } else if i < t2 {
            assert(line[i] == entry.action[i - t1 - 3]);
        } else if i < t2 + 3 {
            assert(line[i] == separator()[i - t2]);
        } else if i < t3 {
            assert(line[i] == o[i - t2 - 3]);
        } else if i < t3 + 3 {
            assert(line[i] == separator()[i - t3]);
        } else {
            assert(line[i] == r[i - t3 - 3]);
        }
    }
}

/// A line is made of the time, the action and the two commands, with a bar between spaces before
/// each but the first, and of nothing else. An entry says what its fields say.
pub proof fn law_a_line_is_its_fields(time: Seq<char>, entry: AuditEntry)
    ensures
        line_of(time, entry@) == time + " | "@ + entry.action@ + " | "@ + sanitized(
            entry.original@,
        ) + " | "@ + sanitized(entry.rewritten@),
        entry@.action == entry.action@,
        entry@.original == entry.original@,
        entry@.rewritten == entry.rewritten@,
{
    reveal_strlit(" | ");
    assert(" | "@ =~= separator());
}

} // verus!
