//! Text operations on whole characters.
use vstd::prelude::*;
use vstd::string::StrSliceExecFns;
use vstd::string::StringExecFns;
use vstd::utf8::*;

verus! {

/// The byte order mark.
pub const BOM: char = '\u{feff}';

/// Whether a character has the Unicode property White_Space.
pub open spec fn white_space(c: char) -> bool {
    ||| '\u{9}' <= c <= '\u{d}'
    ||| c == ' '
    ||| c == '\u{85}'
    ||| c == '\u{a0}'
    ||| c == '\u{1680}'
    ||| '\u{2000}' <= c <= '\u{200a}'
    ||| c == '\u{2028}'
    ||| c == '\u{2029}'
    ||| c == '\u{202f}'
    ||| c == '\u{205f}'
    ||| c == '\u{3000}'
}

/// Tells whether `c` is white space.
pub fn is_white_space(c: char) -> (res: bool)
    ensures
        res == white_space(c),
{
    ('\u{9}' <= c && c <= '\u{d}') || c == ' ' || c == '\u{85}' || c == '\u{a0}'
        || c == '\u{1680}' || ('\u{2000}' <= c && c <= '\u{200a}') || c == '\u{2028}'
        || c == '\u{2029}' || c == '\u{202f}' || c == '\u{205f}' || c == '\u{3000}'
}

/// `String::push` appends the given character to the end of the string.
pub assume_specification[ String::push ](s: &mut String, c: char)
    ensures
        final(s)@ == old(s)@.push(c),
;

/// Compares two texts.
pub fn same_text(a: &str, b: &str) -> (res: bool)
    ensures
        res == (a@ == b@),
{
    let x = a.as_bytes();
    let y = b.as_bytes();
    proof {
        encode_utf8_decode_utf8(a@);
        encode_utf8_decode_utf8(b@);
    }
    if x.len() != y.len() {
        return false;
    }
    let mut i: usize = 0;
    while i < x.len()
        invariant
            i <= x.len(),
            x@.len() == y@.len(),
            x@ == encode_utf8(a@),
            y@ == encode_utf8(b@),
            forall|j: int| 0 <= j < i ==> x@[j] == y@[j],
        decreases x.len() - i,
    {
        if x[i] != y[i] {
            return false;
        }
        i += 1;
    }
    assert(x@ =~= y@);
    true
}

/// The text without its leading byte order marks.
pub open spec fn without_bom(s: Seq<char>) -> Seq<char>
    decreases s.len(),
{
    if s.len() > 0 && s[0] == BOM {
        without_bom(s.drop_first())
    } else {
        s
    }
}

/// The characters of a text, one by one.
pub fn chars_of(s: &str) -> (res: Vec<char>)
    ensures
        res@ == s@,
{
    let mut res: Vec<char> = Vec::new();
    for c in it: s.chars()
        invariant
            it.seq() == s@,
            res@ == s@.take(it.index() as int),
    {
        res.push(c);
    }
    res
}

/// Removes every leading byte order mark.
pub fn strip_leading_bom(input: &str) -> (res: &str)
    ensures
        res@ == without_bom(input@),
{
    let chars = chars_of(input);
    let mut marks: usize = 0;
    assert(input@.skip(0) =~= input@);
    while marks < chars.len() && chars[marks] == BOM
        invariant
            marks <= chars.len(),
            chars@ == input@,
            without_bom(input@) == without_bom(input@.skip(marks as int)),
        decreases chars.len() - marks,
    {
        assert(input@.skip(marks as int).drop_first() =~= input@.skip(marks + 1));
        marks += 1;
    }
    input.substring_char(marks, chars.len())
}

/// The text without its leading white space.
pub open spec fn trimmed_start(s: Seq<char>) -> Seq<char>
    decreases s.len(),
{
    if s.len() > 0 && white_space(s[0]) {
        trimmed_start(s.drop_first())
    } else {
        s
    }
}

/// The text without its trailing white space.
pub open spec fn trimmed_end(s: Seq<char>) -> Seq<char>
    decreases s.len(),
{
    if s.len() > 0 && white_space(s.last()) {
        trimmed_end(s.drop_last())
    } else {
        s
    }
}

/// The text without white space at either end.
pub open spec fn trimmed(s: Seq<char>) -> Seq<char> {
    trimmed_end(trimmed_start(s))
}

/// Removes the white space at both ends of a text.
pub fn trim(input: &str) -> (res: &str)
    ensures
        res@ == trimmed(input@),
{
    let chars = chars_of(input);
    let mut from: usize = 0;
    assert(input@.skip(0) =~= input@);
    while from < chars.len() && is_white_space(chars[from])
        invariant
            from <= chars.len(),
            chars@ == input@,
            trimmed_start(input@) == trimmed_start(input@.skip(from as int)),
        decreases chars.len() - from,
    {
        assert(input@.skip(from as int).drop_first() =~= input@.skip(from + 1));
        from += 1;
    }
    let mut to: usize = chars.len();
    assert(input@.skip(from as int) =~= input@.subrange(from as int, to as int));
    while from < to && is_white_space(chars[to - 1])
        invariant
            from <= to <= chars.len(),
            chars@ == input@,
            trimmed(input@) == trimmed_end(input@.subrange(from as int, to as int)),
        decreases to - from,
    {
        assert(input@.subrange(from as int, to as int).drop_last() =~= input@.subrange(
            from as int,
            to - 1,
        ));
        to -= 1;
    }
    input.substring_char(from, to)
}

/// The words of `word` followed by `rest`, where `word` has been read already.
pub open spec fn words_after(word: Seq<char>, rest: Seq<char>) -> Seq<Seq<char>>
    decreases rest.len(),
{
    if rest.len() == 0 {
        if word.len() == 0 {
            seq![]
        } else {
            seq![word]
        }
    } else if !white_space(rest[0]) {
        words_after(word.push(rest[0]), rest.drop_first())
    } else if word.len() == 0 {
        words_after(seq![], rest.drop_first())
    } else {
        seq![word] + words_after(seq![], rest.drop_first())
    }
}

/// The words of a text: its longest stretches without white space, in order.
pub open spec fn words(s: Seq<char>) -> Seq<Seq<char>> {
    words_after(seq![], s)
}

/// What an optional string says.
pub open spec fn text_view(s: Option<String>) -> Option<Seq<char>> {
    match s {
        Some(s) => Some(s@),
        None => None,
    }
}

/// What the strings of a list say.
pub open spec fn texts(list: Seq<String>) -> Seq<Seq<char>> {
    list.map_values(|s: String| s@)
}

/// Splits a text at its white space.
pub fn split_whitespace(input: &str) -> (res: Vec<String>)
    ensures
        texts(res@) == words(input@),
{
    let chars = chars_of(input);
    let mut found: Vec<String> = Vec::new();
    let mut word = String::new();
    let mut i: usize = 0;
    let mut empty: bool = true;
    assert(input@.skip(0) =~= input@);
    assert(words(input@) =~= texts(found@) + words_after(word@, input@.skip(0)));
    while i < chars.len()
        invariant
            i <= chars.len(),
            chars@ == input@,
            empty == (word@.len() == 0),
            words(input@) == texts(found@) + words_after(word@, input@.skip(i as int)),
        decreases chars.len() - i,
    {
        let c = chars[i];
        let ghost before = texts(found@);
        assert(input@.skip(i as int).drop_first() =~= input@.skip(i + 1));
        if !is_white_space(c) {
            word.push(c);
            empty = false;
        } else if !empty {
            let ghost said = word@;
            found.push(word);
            word = String::new();
            empty = true;
            assert(texts(found@) =~= before.push(said));
            assert(word@ =~= seq![]);
            assert(before + (seq![said] + words_after(seq![], input@.skip(i + 1)))
                =~= before.push(said) + words_after(seq![], input@.skip(i + 1)));
        } else {
            assert(word@ =~= seq![]);
        }
        i += 1;
    }
    assert(input@.skip(i as int) =~= seq![]);
    if !empty {
        let ghost before = texts(found@);
        let ghost said = word@;
        found.push(word);
        assert(texts(found@) =~= before.push(said));
        assert(before + seq![said] =~= before.push(said));
    } else {
        assert(texts(found@) + seq![] =~= texts(found@));
    }
    found
}

/// The texts of a list with one space between each two.
pub open spec fn spaced(list: Seq<Seq<char>>) -> Seq<char>
    decreases list.len(),
{
    if list.len() == 0 {
        seq![]
    } else if list.len() == 1 {
        list[0]
    } else {
        spaced(list.drop_last()) + seq![' '] + list.last()
    }
}

/// Joins the strings of a list with single spaces.
pub fn join_spaced(list: &[String]) -> (res: String)
    ensures
        res@ == spaced(texts(list@)),
{
    let mut res = String::new();
    let mut i: usize = 0;
    assert(texts(list@).take(0) =~= seq![]);
    while i < list.len()
        invariant
            i <= list.len(),
            res@ == spaced(texts(list@).take(i as int)),
        decreases list.len() - i,
    {
        if i > 0 {
            res.push(' ');
        }
        res.append(list[i].as_str());
        assert(texts(list@).take(i + 1).drop_last() =~= texts(list@).take(i as int));
        assert(res@ =~= spaced(texts(list@).take(i + 1)));
        i += 1;
    }
    assert(texts(list@).take(i as int) =~= texts(list@));
    res
}

/// Byte order marks before a text do not bear on what is left when they are removed.
pub proof fn law_leading_marks_vanish(marks: Seq<char>, s: Seq<char>)
    requires
        forall|i: int| 0 <= i < marks.len() ==> #[trigger] marks[i] == BOM,
    ensures
        without_bom(marks + s) == without_bom(s),
    decreases marks.len(),
{
    if marks.len() == 0 {
        assert(marks + s =~= s);
    } else {
        assert((marks + s)[0] == marks[0]);
        assert((marks + s).drop_first() =~= marks.drop_first() + s);
        law_leading_marks_vanish(marks.drop_first(), s);
    }
}

/// Only leading byte order marks are removed, and all of them: the text is some marks followed
/// by what is left, which does not begin with one.
pub proof fn law_only_leading_marks_vanish(s: Seq<char>)
    ensures
        without_bom(s).len() <= s.len(),
        s.skip(s.len() - without_bom(s).len()) == without_bom(s),
        forall|i: int| 0 <= i < s.len() - without_bom(s).len() ==> #[trigger] s[i] == BOM,
        without_bom(s).len() > 0 ==> without_bom(s)[0] != BOM,
    decreases s.len(),
{
    if s.len() > 0 && s[0] == BOM {
        let rest = s.drop_first();
        law_only_leading_marks_vanish(rest);
        let n = s.len() - without_bom(s).len();
        assert(s.skip(n) =~= rest.skip(n - 1));
        assert forall|i: int| 0 <= i < n implies #[trigger] s[i] == BOM by {
            if i > 0 {
                assert(s[i] == rest[i - 1]);
            }
        }
    } else {
        assert(s.skip(0) =~= s);
    }
}

/// What is left of a text stays as it is when byte order marks are removed again.
pub proof fn law_marks_vanish_at_once(s: Seq<char>)
    ensures
        without_bom(without_bom(s)) == without_bom(s),
{
    law_only_leading_marks_vanish(s);
}

/// Whether a text is nothing but white space.
pub open spec fn blank(s: Seq<char>) -> bool {
    forall|i: int| 0 <= i < s.len() ==> white_space(#[trigger] s[i])
}

proof fn lemma_trimmed_start_blank(s: Seq<char>)
    ensures
        trimmed_start(s).len() == 0 <==> blank(s),
        trimmed_start(s).len() > 0 ==> !white_space(trimmed_start(s)[0]),
    decreases s.len(),
{
    if s.len() > 0 && white_space(s[0]) {
        let rest = s.drop_first();
        lemma_trimmed_start_blank(rest);
        if blank(rest) {
            assert forall|i: int| 0 <= i < s.len() implies white_space(#[trigger] s[i]) by {
                if i > 0 {
                    assert(s[i] == rest[i - 1]);
                }
            }
        }
        if blank(s) {
            assert forall|i: int| 0 <= i < rest.len() implies white_space(#[trigger] rest[i]) by {
                assert(rest[i] == s[i + 1]);
            }
        }
    } else if s.len() > 0 {
        assert(!white_space(s[0]));
    }
}

proof fn lemma_trimmed_end_keeps_first(s: Seq<char>)
    requires
        s.len() > 0,
        !white_space(s[0]),
    ensures
        trimmed_end(s).len() > 0,
    decreases s.len(),
{
    if white_space(s.last()) {
        assert(s.drop_last()[0] == s[0]);
        lemma_trimmed_end_keeps_first(s.drop_last());
    }
}

/// Nothing is left of a text between its ends of white space only if it is blank.
pub proof fn law_trimmed_empty_iff_blank(s: Seq<char>)
    ensures
        trimmed(s).len() == 0 <==> blank(s),
{
    lemma_trimmed_start_blank(s);
    if !blank(s) {
        lemma_trimmed_end_keeps_first(trimmed_start(s));
    }
}

/// A text that neither begins nor ends with white space is what is left of it when white space
/// stands around it.
pub proof fn law_trimming_takes_the_ends(before: Seq<char>, s: Seq<char>, behind: Seq<char>)
    requires
        forall|i: int| 0 <= i < before.len() ==> white_space(#[trigger] before[i]),
        forall|i: int| 0 <= i < behind.len() ==> white_space(#[trigger] behind[i]),
        s.len() > 0,
        !white_space(s[0]),
        !white_space(s.last()),
    ensures
        trimmed(before + s + behind) == s,
    decreases before.len() + behind.len(),
{
    let all = before + s + behind;
    if before.len() > 0 {
        assert(all[0] == before[0]);
        assert(all.drop_first() =~= before.drop_first() + s + behind);
        law_trimming_takes_the_ends(before.drop_first(), s, behind);
    } else {
        assert(all[0] == s[0]);
        assert(trimmed_start(all) == all);
        if behind.len() > 0 {
            let shorter = before + s + behind.drop_last();
            assert(all.last() == behind.last());
            assert(white_space(behind[behind.len() - 1]));
            assert(all.drop_last() =~= shorter);
            assert(shorter[0] == s[0]);
            law_trimming_takes_the_ends(before, s, behind.drop_last());
        } else {
            assert(all =~= s);
        }
    }
}

/// White space is what Unicode says it is: the control characters from tab to carriage return,
/// next line, and the separators of space, line and paragraph.
pub proof fn law_white_space_by_code_point(c: char)
    ensures
        white_space(c) <==> {
            let n = c as u32;
            ||| 9 <= n && n <= 13
            ||| n == 32
            ||| n == 133
            ||| n == 160
            ||| n == 5760
            ||| 8192 <= n && n <= 8202
            ||| n == 8232
            ||| n == 8233
            ||| n == 8239
            ||| n == 8287
            ||| n == 12288
        },
{
}

/// The byte order mark is U+FEFF: it goes from the front of a text, and nothing else does.
pub proof fn law_the_mark_is_feff(s: Seq<char>)
    ensures
        without_bom(seq!['\u{feff}'] + s) == without_bom(s),
        s.len() > 0 && s[0] != '\u{feff}' ==> without_bom(s) == s,
        without_bom(seq![]).len() == 0,
        BOM as u32 == 65279,
{
    assert((seq!['\u{feff}'] + s).drop_first() =~= s);
    assert((seq!['\u{feff}'] + s)[0] == '\u{feff}');
}

/// Joining puts one space before every text but the first.
pub proof fn law_joining_adds_one_space(list: Seq<Seq<char>>, last: Seq<char>)
    ensures
        spaced(seq![]).len() == 0,
        spaced(seq![last]) == last,
        list.len() > 0 ==> spaced(list.push(last)) == spaced(list) + seq![' '] + last,
{
    assert(list.push(last).drop_last() =~= list);
}

/// A list says what its strings say, one by one, and an optional string what the string says.
pub proof fn law_texts_one_by_one(list: Seq<String>, s: String)
    ensures
        texts(list).len() == list.len(),
        forall|i: int| 0 <= i < list.len() ==> #[trigger] texts(list)[i] == list[i]@,
        text_view(Some(s)) == Some(s@),
        text_view(None) is None,
{
}

/// Whether a text is a word: not empty, and without white space.
pub open spec fn is_word(s: Seq<char>) -> bool {
    s.len() > 0 && forall|i: int| 0 <= i < s.len() ==> !white_space(#[trigger] s[i])
}

/// A text without its white space.
pub open spec fn squeezed(s: Seq<char>) -> Seq<char> {
    s.filter(|c: char| !white_space(c))
}

proof fn lemma_words_after(word: Seq<char>, rest: Seq<char>)
    requires
        forall|i: int| 0 <= i < word.len() ==> !white_space(#[trigger] word[i]),
    ensures
        forall|i: int| 0 <= i < words_after(word, rest).len() ==> is_word(
            #[trigger] words_after(word, rest)[i],
        ),
        words_after(word, rest).len() == 0 <==> word.len() == 0 && blank(rest),
        words_after(word, rest).flatten() == word + squeezed(rest),
    decreases rest.len(),
{
    let found = words_after(word, rest);
    let empty: Seq<char> = seq![];
    let none: Seq<Seq<char>> = seq![];
    if rest.len() == 0 {
        assert(squeezed(rest) =~= empty) by {
            reveal(Seq::filter);
        }
        if word.len() == 0 {
            assert(found =~= none);
            assert(none.flatten() =~= empty);
            assert(word + squeezed(rest) =~= empty);
        } else {
            assert(found =~= seq![word]);
            seq![word].lemma_flatten_one_element();
            assert(word + squeezed(rest) =~= word);
        }
    } else {
        let c = rest[0];
        let tail = rest.drop_first();
        assert(rest =~= seq![c] + tail);
        let keep = |c: char| !white_space(c);
        assert(seq![c].filter(keep) =~= if white_space(c) { empty } else { seq![c] }) by {
            reveal_with_fuel(Seq::filter, 2);
            assert(seq![c].drop_last() =~= empty);
        }
        Seq::filter_distributes_over_add(seq![c], tail, keep);
        assert(squeezed(rest) == seq![c].filter(keep) + squeezed(tail));
        assert(blank(rest) <==> white_space(c) && blank(tail)) by {
            if blank(rest) {
                assert(white_space(rest[0]));
                assert forall|i: int| 0 <= i < tail.len() implies white_space(
                    #[trigger] tail[i],
                ) by {
                    assert(tail[i] == rest[i + 1]);
                }
            }
            if white_space(c) && blank(tail) {
                assert forall|i: int| 0 <= i < rest.len() implies white_space(
                    #[trigger] rest[i],
                ) by {
                    if i > 0 {
                        assert(rest[i] == tail[i - 1]);
                    }
                }
            }
        }
        if !white_space(c) {
            lemma_words_after(word.push(c), tail);
            assert(word.push(c) + squeezed(tail) =~= word + squeezed(rest));
        } else {
            lemma_words_after(empty, tail);
            assert(squeezed(rest) =~= squeezed(tail));
            assert(empty + squeezed(tail) =~= squeezed(tail));
            if word.len() == 0 {
                assert(word + squeezed(rest) =~= squeezed(rest));
            } else {
                let others = words_after(empty, tail);
                assert(found == seq![word] + others);
                assert(found.drop_first() =~= others);
                assert(found.first() == word);
                assert(found.flatten() == word + others.flatten());
                assert forall|i: int| 0 <= i < found.len() implies is_word(
                    #[trigger] found[i],
                ) by {
                    if i > 0 {
                        assert(found[i] == others[i - 1]);
                    }
                }
            }
        }
    }
}

/// The words of a text are words, together they are the text without its white space, and there
/// are none only if the text is blank.
pub proof fn law_words_are_the_text(s: Seq<char>)
    ensures
        forall|i: int| 0 <= i < words(s).len() ==> is_word(#[trigger] words(s)[i]),
        words(s).flatten() == squeezed(s),
        words(s).len() == 0 <==> blank(s),
{
    lemma_words_after(seq![], s);
    assert(seq![] + squeezed(s) =~= squeezed(s));
}

proof fn lemma_words_after_split(word: Seq<char>, s: Seq<char>, c: char, t: Seq<char>)
    requires
        white_space(c),
    ensures
        words_after(word, s + seq![c] + t) == words_after(word, s) + words(t),
    decreases s.len(),
{
    let all = s + seq![c] + t;
    let none: Seq<Seq<char>> = seq![];
    if s.len() == 0 {
        assert(all[0] == c);
        assert(all.drop_first() =~= t);
        assert(none + words(t) =~= words(t));
    } else {
        let rest = s.drop_first();
        assert(all[0] == s[0]);
        assert(all.drop_first() =~= rest + seq![c] + t);
        if !white_space(s[0]) {
            lemma_words_after_split(word.push(s[0]), rest, c, t);
        } else {
            lemma_words_after_split(seq![], rest, c, t);
            assert(seq![word] + (words_after(seq![], rest) + words(t)) =~= (seq![word]
                + words_after(seq![], rest)) + words(t));
        }
    }
}

/// White space separates: the words of a text are those before a white space character, followed
/// by those behind it.
pub proof fn law_white_space_separates_words(s: Seq<char>, c: char, t: Seq<char>)
    requires
        white_space(c),
    ensures
        words(s + seq![c] + t) == words(s) + words(t),
{
    lemma_words_after_split(seq![], s, c, t);
}

proof fn lemma_words_after_word(word: Seq<char>, s: Seq<char>)
    requires
        word.len() + s.len() > 0,
        forall|i: int| 0 <= i < s.len() ==> !white_space(#[trigger] s[i]),
    ensures
        words_after(word, s) == seq![word + s],
    decreases s.len(),
{
    if s.len() == 0 {
        assert(word + s =~= word);
    } else {
        let rest = s.drop_first();
        assert forall|i: int| 0 <= i < rest.len() implies !white_space(#[trigger] rest[i]) by {
            assert(rest[i] == s[i + 1]);
        }
        lemma_words_after_word(word.push(s[0]), rest);
        assert(word.push(s[0]) + rest =~= word + s);
    }
}

/// Nothing else separates: a word is its own only word.
pub proof fn law_a_word_stays_whole(w: Seq<char>)
    requires
        is_word(w),
    ensures
        words(w) == seq![w],
{
    lemma_words_after_word(seq![], w);
    assert(seq![] + w =~= w);
}

/// The words of a text, said by white space alone: nothing has no words, a stretch without white
/// space is one word, and a white space character parts the words before it from those behind.
pub proof fn law_words_are_the_stretches(s: Seq<char>, c: char, t: Seq<char>)
    requires
        white_space(c),
    ensures
        words(seq![]).len() == 0,
        s.len() > 0 && (forall|i: int| 0 <= i < s.len() ==> !white_space(#[trigger] s[i]))
            ==> words(s) == seq![s],
        words(s + seq![c] + t) == words(s) + words(t),
{
    if s.len() > 0 && (forall|i: int| 0 <= i < s.len() ==> !white_space(#[trigger] s[i])) {
        law_a_word_stays_whole(s);
    }
    law_white_space_separates_words(s, c, t);
}

} // verus!
