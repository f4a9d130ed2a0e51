//! Header text: splitting it at separators and trimming the pieces.
use vstd::prelude::*;
use vstd::string::*;
use vstd::utf8::*;

verus! {

const TAB: u8 = 0x09;

const SPACE: u8 = 0x20;

const COMMA: u8 = 0x2c;

const SEMICOLON: u8 = 0x3b;

/// Whether header text can hold the character: a tab, or visible ASCII.
pub open spec fn is_header_char(c: char) -> bool {
    c == '\t' || ' ' <= c <= '~'
}

/// Whether every character of a text is one that header text can hold.
pub open spec fn is_header_text(text: Seq<char>) -> bool {
    forall|i: int| 0 <= i < text.len() ==> is_header_char(#[trigger] text[i])
}

/// The characters of header text that count as white space.
pub open spec fn is_blank(c: char) -> bool {
    c == ' ' || c == '\t'
}

/// The text without the blanks at its start.
pub open spec fn trim_start(text: Seq<char>) -> Seq<char>
    decreases text.len(),
{
    if text.len() > 0 && is_blank(text.first()) {
        trim_start(text.drop_first())
    } else {
        text
    }
}

/// The text without the blanks at its end.
pub open spec fn trim_end(text: Seq<char>) -> Seq<char>
    decreases text.len(),
{
    if text.len() > 0 && is_blank(text.last()) {
        trim_end(text.drop_last())
    } else {
        text
    }
}

/// The text without the blanks at either end.
pub open spec fn trim(text: Seq<char>) -> Seq<char> {
    trim_end(trim_start(text))
}

/// The pieces of a text between its separators. There is one more piece than separators: each
/// separator opens a new piece, and any other character extends the last one.
pub open spec fn pieces(text: Seq<char>, separators: Set<char>) -> Seq<Seq<char>>
    decreases text.len(),
{
    if text.len() == 0 {
        seq![text]
    } else {
        let before = pieces(text.drop_last(), separators);
        if separators.contains(text.last()) {
            before.push(Seq::empty())
        } else {
            before.drop_last().push(before.last().push(text.last()))
        }
    }
}

/// The separator between the elements of a header value that holds a list.
pub open spec fn commas() -> Set<char> {
    set![',']
}

/// The separators between the parts of all the elements of a `Forwarded` header value.
pub open spec fn commas_and_semicolons() -> Set<char> {
    set![',', ';']
}

/// Trimming from the end takes off what is blank and stops at what is not.
proof fn lemma_trim_end(text: Seq<char>, end: int)
    requires
        0 <= end <= text.len(),
        forall|i: int| end <= i < text.len() ==> is_blank(#[trigger] text[i]),
        end == 0 || !is_blank(text[end - 1]),
    ensures
        trim_end(text) == text.take(end),
    decreases text.len(),
{
    if end < text.len() {
        lemma_trim_end(text.drop_last(), end);
    }
}

/// Trimming from the start takes off what is blank and stops at what is not.
proof fn lemma_trim_start(text: Seq<char>, start: int)
    requires
        0 <= start <= text.len(),
        forall|i: int| 0 <= i < start ==> is_blank(#[trigger] text[i]),
        start == text.len() || !is_blank(text[start]),
    ensures
        trim_start(text) == text.skip(start),
    decreases text.len(),
{
    if start > 0 {
        lemma_trim_start(text.drop_first(), start - 1);
    }
}

/// Header text is as many bytes long as it has characters, byte for character.
pub(crate) proof fn lemma_header_text_bytes(text: &str)
    requires
        is_header_text(text@),
    ensures
        is_ascii_chars(text@),
        text.spec_bytes().len() == text@.len(),
        forall|i: int|
            0 <= i < text@.len() ==> #[trigger] text.spec_bytes()[i] == text@[i] as u8,
{
    is_ascii_chars_encode_utf8(text@);
}

proof fn lemma_header_text_boundary(text: &str, index: int)
    requires
        is_header_text(text@),
        0 <= index <= text@.len(),
    ensures
        is_char_boundary(text.spec_bytes(), index),
{
    lemma_header_text_bytes(text);
    encode_utf8_valid_utf8(text@);
    let bytes = text.spec_bytes();
    if index == bytes.len() {
        is_char_boundary_start_end_of_seq(bytes);
    } else {
        is_char_boundary_iff_is_leading_byte(bytes, index);
    }
}

/// A text whose bytes are a stretch of header text has that stretch of its characters.
proof fn lemma_header_text_stretch(text: &str, part: &str, start: int, end: int)
    requires
        is_header_text(text@),
        0 <= start <= end <= text@.len(),
        part.spec_bytes() == text.spec_bytes().subrange(start, end),
    ensures
        part@ == text@.subrange(start, end),
{
    let stretch = text@.subrange(start, end);
    lemma_header_text_bytes(text);
    is_ascii_chars_encode_utf8(stretch);
    assert(encode_utf8(stretch) == part.spec_bytes());
    encode_utf8_decode_utf8(stretch);
    encode_utf8_decode_utf8(part@);
}

/// The stretch of header text from the character at `start` up to the one at `end`.
fn stretch<'a>(text: &'a str, start: usize, end: usize) -> (r: &'a str)
    requires
        is_header_text(text@),
        start <= end <= text@.len(),
    ensures
        r@ == text@.subrange(start as int, end as int),
{
    proof {
        lemma_header_text_boundary(text, end as int);
        lemma_header_text_bytes(text);
    }
    let (front, _) = text.split_at(end);
    proof {
        lemma_header_text_stretch(text, front, 0, end as int);
        lemma_header_text_boundary(front, start as int);
        lemma_header_text_bytes(front);
    }
    let (_, r) = front.split_at(start);
    proof {
        lemma_header_text_stretch(front, r, start as int, end as int);
        assert(front@.subrange(start as int, end as int) == text@.subrange(
            start as int,
            end as int,
        ));
    }
    r
}

/// The stretch of header text from `start` up to `end`, without the blanks at either end.
fn trimmed<'a>(text: &'a str, start: usize, end: usize) -> (r: &'a str)
    requires
        is_header_text(text@),
        start <= end <= text@.len(),
    ensures
        r@ == trim(text@.subrange(start as int, end as int)),
        is_header_text(r@),
{
    let ghost whole = text@.subrange(start as int, end as int);
    proof {
        lemma_header_text_bytes(text);
    }
    let bytes = text.as_bytes();
    let mut first: usize = start;
    while first < end && (bytes[first] == SPACE || bytes[first] == TAB)
        invariant
            is_header_text(text@),
            start <= first <= end <= text@.len(),
            whole == text@.subrange(start as int, end as int),
            bytes@.len() == text@.len(),
            forall|i: int| 0 <= i < text@.len() ==> #[trigger] bytes@[i] == text@[i] as u8,
            forall|i: int| 0 <= i < first - start ==> is_blank(#[trigger] whole[i]),
        ensures
            first == end || !is_blank(text@[first as int]),
        decreases end - first,
    {
        first += 1;
    }
    let mut last: usize = end;
    while first < last && (bytes[last - 1] == SPACE || bytes[last - 1] == TAB)
        invariant
            is_header_text(text@),
            start <= first <= last <= end <= text@.len(),
            bytes@.len() == text@.len(),
            forall|i: int| 0 <= i < text@.len() ==> #[trigger] bytes@[i] == text@[i] as u8,
            forall|i: int| last <= i < end ==> is_blank(#[trigger] text@[i]),
        ensures
            first == last || !is_blank(text@[last - 1]),
        decreases last - first,
    {
        last -= 1;
    }
    proof {
        let skipped = whole.skip(first - start);
        lemma_trim_start(whole, first - start);
        lemma_trim_end(skipped, last - first);
    }
    stretch(text, first, last)
}

/// Splits header text at its commas, and at its semicolons too if asked, and trims the pieces.
pub fn split_trimmed<'a>(text: &'a str, semicolons: bool) -> (r: Vec<&'a str>)
    requires
        is_header_text(text@),
    ensures
        ({
            let found = pieces(
                text@,
                if semicolons {
                    commas_and_semicolons()
                } else {
                    commas()
                },
            );
            &&& r@.len() == found.len()
            &&& forall|i: int| 0 <= i < found.len() ==> (#[trigger] r@[i])@ == trim(found[i])
            &&& forall|i: int| 0 <= i < found.len() ==> is_header_text((#[trigger] r@[i])@)
        }),
{
    let ghost separators = if semicolons {
        commas_and_semicolons()
    } else {
        commas()
    };
    proof {
        lemma_header_text_bytes(text);
    }
    let bytes = text.as_bytes();
    let mut parts: Vec<&'a str> = Vec::new();
    let mut start: usize = 0;
    let mut i: usize = 0;
    while i < bytes.len()
        invariant
            is_header_text(text@),
            start <= i <= text@.len(),
            separators == (if semicolons {
                commas_and_semicolons()
            } else {
                commas()
            }),
            bytes@.len() == text@.len(),
            forall|j: int| 0 <= j < text@.len() ==> #[trigger] bytes@[j] == text@[j] as u8,
            pieces(text@.take(i as int), separators).len() == parts@.len() + 1,
            pieces(text@.take(i as int), separators).last() == text@.subrange(
                start as int,
                i as int,
            ),
            forall|j: int|
                0 <= j < parts@.len() ==> (#[trigger] parts@[j])@ == trim(
                    pieces(text@.take(i as int), separators)[j],
                ),
            forall|j: int| 0 <= j < parts@.len() ==> is_header_text((#[trigger] parts@[j])@),
        decreases bytes.len() - i,
    {
        proof {
            assert(text@.take(i + 1).drop_last() == text@.take(i as int));
        }
        if bytes[i] == COMMA || (semicolons && bytes[i] == SEMICOLON) {
            parts.push(trimmed(text, start, i));
            start = i + 1;
        } else {
            proof {
                assert(text@.subrange(start as int, i + 1) == text@.subrange(
                    start as int,
                    i as int,
                ).push(text@[i as int]));
            }
        }
        i += 1;
    }
    proof {
        assert(text@.take(i as int) == text@);
    }
    parts.push(trimmed(text, start, i));
    parts
}

/// Texts put together again, with a character between each and the next.
pub open spec fn rejoined(parts: Seq<Seq<char>>, cuts: Seq<char>) -> Seq<char>
    decreases parts.len(),
{
    if parts.len() == 0 {
        Seq::empty()
    } else if parts.len() == 1 {
        parts[0]
    } else {
        rejoined(parts.drop_last(), cuts.drop_last()).push(cuts.last()) + parts.last()
    }
}

/// Whether `parts` are what is left of a text when it is cut at each of the characters `cuts`,
/// which are the separators in it, all of them and in order.
pub open spec fn is_cut_into(
    text: Seq<char>,
    parts: Seq<Seq<char>>,
    cuts: Seq<char>,
    separators: Set<char>,
) -> bool {
    &&& parts.len() == cuts.len() + 1
    &&& rejoined(parts, cuts) == text
    &&& forall|i: int| 0 <= i < cuts.len() ==> separators.contains(#[trigger] cuts[i])
    &&& forall|i: int, j: int|
        0 <= i < parts.len() && 0 <= j < parts[i].len() ==> !separators.contains(
            #[trigger] parts[i][j],
        )
}

/// Whether `part` is a text without the blanks at its ends: what is left out is blank, and what is
/// left neither starts nor ends with a blank.
pub open spec fn is_text_without_outer_blanks(
    text: Seq<char>,
    part: Seq<char>,
    start: int,
    end: int,
) -> bool {
    &&& 0 <= start <= end <= text.len()
    &&& part == text.subrange(start, end)
    &&& forall|i: int|
        0 <= i < start || end <= i < text.len() ==> #[trigger] text[i] == ' ' || text[i] == '\t'
    &&& part.len() > 0 ==> part[0] != ' ' && part[0] != '\t' && part.last() != ' ' && part.last()
        != '\t'
}

/// Whether `part` is a text without the blanks at its ends.
pub open spec fn trims_to(text: Seq<char>, part: Seq<char>) -> bool {
    exists|start: int, end: int| #[trigger] is_text_without_outer_blanks(text, part, start, end)
}

/// The pieces of a text are what it is cut into at its separators: put together again with the
/// separators between them they are the text, and none of them holds a separator.
pub proof fn law_pieces_rejoin(text: Seq<char>, separators: Set<char>)
    ensures
        exists|cuts: Seq<char>| #[trigger]
            is_cut_into(text, pieces(text, separators), cuts, separators),
    decreases text.len(),
{
    let parts = pieces(text, separators);
    if text.len() == 0 {
        assert(rejoined(parts, Seq::empty()) == text);
        assert(is_cut_into(text, parts, Seq::empty(), separators));
    } else {
        let init = text.drop_last();
        let before = pieces(init, separators);
        law_pieces_rejoin(init, separators);
        let cuts = choose|cuts: Seq<char>| #[trigger] is_cut_into(init, before, cuts, separators);
        if separators.contains(text.last()) {
            let more = cuts.push(text.last());
            assert(parts.drop_last() == before);
            assert(more.drop_last() == cuts);
            assert(rejoined(parts, more) == text);
            assert(is_cut_into(text, parts, more, separators));
        } else {
            assert(parts.drop_last() == before.drop_last());
            assert(parts.last() == before.last().push(text.last()));
            assert(text == init.push(text.last()));
            if parts.len() > 1 {
                let head = rejoined(before.drop_last(), cuts.drop_last()).push(cuts.last());
                assert(head + parts.last() == (head + before.last()).push(text.last()));
            }
            assert(rejoined(parts, cuts) == text);
            assert forall|i: int, j: int|
                0 <= i < parts.len() && 0 <= j < parts[i].len() implies !separators.contains(
                #[trigger] parts[i][j],
            ) by {
                if i < parts.len() - 1 {
                    assert(parts[i] == before[i]);
                    assert(!separators.contains(before[i][j]));
                } else if j < before.last().len() {
                    assert(!separators.contains(before[i][j]));
                }
            }
            assert(is_cut_into(text, parts, cuts, separators));
        }
    }
}

/// Trimming takes off the blanks at both ends, all of them, and nothing else.
pub proof fn law_trim_takes_off_the_outer_blanks(text: Seq<char>)
    ensures
        trims_to(text, trim(text)),
{
    let start = lemma_trim_start_cuts(text);
    let rest = text.skip(start);
    let len = lemma_trim_end_cuts(rest);
    assert(rest.take(len) == text.subrange(start, start + len));
    assert forall|i: int|
        0 <= i < start || start + len <= i < text.len() implies #[trigger] text[i] == ' ' || text[i]
        == '\t' by {
        if i >= start {
            assert(is_blank(rest[i - start]));
        }
    }
    if len > 0 {
        assert(trim(text)[0] == rest[0]);
    }
    assert(is_text_without_outer_blanks(text, trim(text), start, start + len));
}

proof fn lemma_trim_start_cuts(text: Seq<char>) -> (start: int)
    ensures
        0 <= start <= text.len(),
        trim_start(text) == text.skip(start),
        forall|i: int| 0 <= i < start ==> is_blank(#[trigger] text[i]),
        start < text.len() ==> text[start] != ' ' && text[start] != '\t',
    decreases text.len(),
{
    if text.len() > 0 && is_blank(text.first()) {
        let start = lemma_trim_start_cuts(text.drop_first());
        assert(text.drop_first().skip(start) == text.skip(start + 1));
        assert forall|i: int| 0 <= i < start + 1 implies is_blank(#[trigger] text[i]) by {
            if i > 0 {
                assert(is_blank(text.drop_first()[i - 1]));
            }
        }
        start + 1
    } else {
        assert(text.skip(0) == text);
        0
    }
}

proof fn lemma_trim_end_cuts(text: Seq<char>) -> (end: int)
    ensures
        0 <= end <= text.len(),
        trim_end(text) == text.take(end),
        forall|i: int| end <= i < text.len() ==> is_blank(#[trigger] text[i]),
        end > 0 ==> text[end - 1] != ' ' && text[end - 1] != '\t',
    decreases text.len(),
{
    if text.len() > 0 && is_blank(text.last()) {
        let end = lemma_trim_end_cuts(text.drop_last());
        assert(text.drop_last().take(end) == text.take(end));
        assert forall|i: int| end <= i < text.len() implies is_blank(#[trigger] text[i]) by {
            if i < text.len() - 1 {
                assert(is_blank(text.drop_last()[i]));
            }
        }
        end
    } else {
        assert(text.take(text.len() as int) == text);
        text.len() as int
    }
}

/// Header text is split at every comma, and at every semicolon exactly if asked, and of each piece
/// exactly the blanks at its ends are taken off.
pub proof fn law_split_trimmed(text: &str, semicolons: bool, parts: Vec<&str>)
    requires
        is_header_text(text@),
        call_ensures(split_trimmed, (text, semicolons), parts),
    ensures
        exists|found: Seq<Seq<char>>, cuts: Seq<char>, separators: Set<char>| #[trigger]
            is_cut_into(text@, found, cuts, separators) && (forall|c: char| #[trigger]
                separators.contains(c) <==> c == ',' || semicolons && c == ';') && found.len()
                == parts@.len() && forall|i: int|
                0 <= i < found.len() ==> trims_to(#[trigger] found[i], parts@[i]@),
{
    let separators = if semicolons {
        commas_and_semicolons()
    } else {
        commas()
    };
    let found = pieces(text@, separators);
    law_pieces_rejoin(text@, separators);
    let cuts = choose|cuts: Seq<char>| #[trigger] is_cut_into(text@, found, cuts, separators);
    assert forall|i: int| 0 <= i < found.len() implies trims_to(
        #[trigger] found[i],
        parts@[i]@,
    ) by {
        assert(parts@[i]@ == trim(found[i]));
        law_trim_takes_off_the_outer_blanks(found[i]);
    }
    assert(is_cut_into(text@, found, cuts, separators));
}

/// The separators of a list are the comma alone, and those of a `Forwarded` header value the comma
/// and the semicolon.
pub proof fn law_separators(c: char)
    ensures
        commas().contains(c) <==> c == ',',
        commas_and_semicolons().contains(c) <==> c == ',' || c == ';',
{
}

} // verus!
