//! Byte strings: the whitespace around them, and where one holds another.

use vstd::prelude::*;

verus! {

/// Whether a byte is ASCII whitespace: space, tab, line feed, vertical tab,
/// form feed or carriage return.
pub open spec fn is_space(byte: u8) -> bool {
    byte == 0x20 || (0x09 <= byte && byte <= 0x0d)
}

/// The text without the whitespace at its front.
pub open spec fn trim_start(text: Seq<u8>) -> Seq<u8>
    decreases text.len(),
{
    if text.len() > 0 && is_space(text.first()) {
        trim_start(text.drop_first())
    } else {
        text
    }
}

/// The text without the whitespace at its end.
pub open spec fn trim_end(text: Seq<u8>) -> Seq<u8>
    decreases text.len(),
{
    if text.len() > 0 && is_space(text.last()) {
        trim_end(text.drop_last())
    } else {
        text
    }
}

/// The text without the whitespace around it.
pub open spec fn trimmed(text: Seq<u8>) -> Seq<u8> {
    trim_end(trim_start(text))
}

/// Whether a text has no whitespace around it: it is empty, or neither
/// begins nor ends with whitespace.
pub open spec fn is_tight(text: Seq<u8>) -> bool {
    text.len() == 0 || (!is_space(text.first()) && !is_space(text.last()))
}

/// What is left of a text when whitespace is taken from its front is empty
/// or begins with something else, and is the end of the text.
pub proof fn lemma_trim_start_shape(text: Seq<u8>)
    ensures
        trim_start(text).len() <= text.len(),
        trim_start(text) == text.subrange(text.len() - trim_start(text).len(), text.len() as int),
        trim_start(text).len() == 0 || !is_space(trim_start(text).first()),
        forall|i: int| 0 <= i < text.len() - trim_start(text).len() ==> is_space(text[i]),
    decreases text.len(),
{
    if text.len() > 0 && is_space(text.first()) {
        let rest = text.drop_first();
        lemma_trim_start_shape(rest);
        let kept = trim_start(rest).len();
        assert(rest.subrange(rest.len() - kept, rest.len() as int) =~= text.subrange(
            text.len() - kept,
            text.len() as int,
        ));
        assert forall|i: int| 0 <= i < text.len() - kept implies is_space(text[i]) by {
            if i > 0 {
                assert(text[i] == rest[i - 1]);
            }
        }
    } else {
        assert(text.subrange(0, text.len() as int) =~= text);
    }
}

/// What is left of a text when whitespace is taken from its end is empty or
/// ends with something else, and is the beginning of the text.
pub proof fn lemma_trim_end_shape(text: Seq<u8>)
    ensures
        trim_end(text).len() <= text.len(),
        trim_end(text) == text.subrange(0, trim_end(text).len() as int),
        trim_end(text).len() == 0 || !is_space(trim_end(text).last()),
        forall|i: int| trim_end(text).len() <= i < text.len() ==> is_space(text[i]),
        text.len() > 0 && !is_space(text.first()) ==> trim_end(text).len() > 0,
    decreases text.len(),
{
    if text.len() > 0 && is_space(text.last()) {
        let rest = text.drop_last();
        lemma_trim_end_shape(rest);
        assert(rest.subrange(0, trim_end(rest).len() as int) =~= text.subrange(
            0,
            trim_end(rest).len() as int,
        ));
        assert forall|i: int| trim_end(rest).len() <= i < text.len() implies is_space(
            text[i],
        ) by {
            if i < rest.len() {
                assert(text[i] == rest[i]);
            }
        }
    } else {
        assert(text.subrange(0, text.len() as int) =~= text);
    }
}

/// A trimmed text has no whitespace around it.
pub proof fn lemma_trimmed_is_tight(text: Seq<u8>)
    ensures
        is_tight(trimmed(text)),
{
    let front = trim_start(text);
    lemma_trim_start_shape(text);
    lemma_trim_end_shape(front);
    if trimmed(text).len() > 0 {
        assert(trimmed(text).first() == front.first());
    }
}

/// Trimming leaves a text without whitespace around it as it is.
pub proof fn lemma_tight_is_kept(text: Seq<u8>)
    requires
        is_tight(text),
    ensures
        trimmed(text) == text,
{
}

/// Trimming twice is trimming once.
pub proof fn lemma_trimmed_idempotent(text: Seq<u8>)
    ensures
        trimmed(trimmed(text)) == trimmed(text),
{
    lemma_trimmed_is_tight(text);
    lemma_tight_is_kept(trimmed(text));
}

/// Whether a byte is ASCII whitespace.
fn is_space_byte(byte: u8) -> (space: bool)
    ensures
        space == is_space(byte),
{
    byte == 0x20 || (0x09 <= byte && byte <= 0x0d)
}

/// Where the trimmed form of a part of a text lies in the text.
pub fn trimmed_bounds(text: &[u8], from: usize, to: usize) -> (bounds: (usize, usize))
    requires
        from <= to <= text@.len(),
    ensures
        from <= bounds.0 <= bounds.1 <= to,
        text@.subrange(bounds.0 as int, bounds.1 as int) == trimmed(
            text@.subrange(from as int, to as int),
        ),
{
    let ghost part = text@.subrange(from as int, to as int);
    let mut start: usize = from;
    proof {
        assert(part.subrange(0, part.len() as int) =~= part);
    }
    while start < to && is_space_byte(text[start])
        invariant
            from <= start <= to <= text@.len(),
            part == text@.subrange(from as int, to as int),
            trim_start(part) == trim_start(text@.subrange(start as int, to as int)),
        decreases to - start,
    {
        proof {
            let here = text@.subrange(start as int, to as int);
            assert(here.first() == text@[start as int]);
            assert(here.drop_first() =~= text@.subrange(start + 1, to as int));
        }
        start += 1;
    }
    proof {
        let here = text@.subrange(start as int, to as int);
        if start < to {
            assert(here.first() == text@[start as int]);
        }
        assert(trim_start(part) == here);
    }
    let mut end: usize = to;
    while end > start && is_space_byte(text[end - 1])
        invariant
            from <= start <= end <= to <= text@.len(),
            trimmed(part) == trim_end(text@.subrange(start as int, end as int)),
        decreases end,
    {
        proof {
            let here = text@.subrange(start as int, end as int);
            assert(here.last() == text@[end - 1]);
            assert(here.drop_last() =~= text@.subrange(start as int, end - 1));
        }
        end -= 1;
    }
    proof {
        let here = text@.subrange(start as int, end as int);
        if end > start {
            assert(here.last() == text@[end - 1]);
        }
        assert(trimmed(part) == here);
    }
    (start, end)
}

/// Copies a part of a text.
pub fn copy_range(text: &[u8], from: usize, to: usize) -> (copy: Vec<u8>)
    requires
        from <= to <= text@.len(),
    ensures
        copy@ == text@.subrange(from as int, to as int),
{
    let mut copy: Vec<u8> = Vec::new();
    let mut at: usize = from;
    while at < to
        invariant
            from <= at <= to <= text@.len(),
            copy@ == text@.subrange(from as int, at as int),
        decreases to - at,
    {
        copy.push(text[at]);
        proof {
            assert(copy@ =~= text@.subrange(from as int, at + 1));
        }
        at += 1;
    }
    copy
}

/// Copies a text without the whitespace around it.
pub fn trim(text: &[u8]) -> (kept: Vec<u8>)
    ensures
        kept@ == trimmed(text@),
{
    proof {
        assert(text@.subrange(0, text@.len() as int) =~= text@);
    }
    let bounds = trimmed_bounds(text, 0, text.len());
    copy_range(text, bounds.0, bounds.1)
}

/// Whether a text holds a pattern at a position, in full.
pub fn holds_at(text: &[u8], at: usize, pattern: &[u8]) -> (held: bool)
    requires
        at <= text@.len(),
    ensures
        held <==> (at + pattern@.len() <= text@.len() && text@.subrange(
            at as int,
            at + pattern@.len(),
        ) == pattern@),
{
    let total = text.len();
    if pattern.len() > total - at {
        return false;
    }
    let mut seen: usize = 0;
    while seen < pattern.len()
        invariant
            seen <= pattern@.len(),
            at + pattern@.len() <= text@.len() == total,
            forall|i: int| 0 <= i < seen ==> text@[at + i] == pattern@[i],
        decreases pattern@.len() - seen,
    {
        if text[at + seen] != pattern[seen] {
            proof {
                let part = text@.subrange(at as int, at + pattern@.len());
                assert(part[seen as int] == text@[at + seen]);
            }
            return false;
        }
        seen += 1;
    }
    proof {
        assert(text@.subrange(at as int, at + pattern@.len()) =~= pattern@);
    }
    true
}

} // verus!
