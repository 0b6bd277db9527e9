//! The text that gives the snipe command, and how a message is matched
//! against it.

use vstd::prelude::*;

verus! {

/// The text that asks for a snipe. It is matched exactly and takes no
/// arguments.
pub const TRIGGER: &'static str = ".snipe";

/// Whether `c` is white space: a character with the Unicode property
/// `White_Space`.
pub open spec fn is_whitespace(c: char) -> bool {
    let code = c as u32;
    ||| 0x09 <= code <= 0x0D
    ||| code == 0x20
    ||| code == 0x85
    ||| code == 0xA0
    ||| code == 0x1680
    ||| 0x2000 <= code <= 0x200A
    ||| code == 0x2028
    ||| code == 0x2029
    ||| code == 0x202F
    ||| code == 0x205F
    ||| code == 0x3000
}

/// `s` without the white space at its end.
pub open spec fn trim_end(s: Seq<char>) -> Seq<char>
    decreases s.len(),
{
    if s.len() > 0 && is_whitespace(s.last()) {
        trim_end(s.drop_last())
    } else {
        s
    }
}

/// `s` without the white space at its start.
pub open spec fn trim_start(s: Seq<char>) -> Seq<char>
    decreases s.len(),
{
    if s.len() > 0 && is_whitespace(s.first()) {
        trim_start(s.drop_first())
    } else {
        s
    }
}

/// `s` without the white space at its start and at its end.
pub open spec fn trim(s: Seq<char>) -> Seq<char> {
    trim_start(trim_end(s))
}

/// Whether a message that reads `content` asks for a snipe: it does when
/// the text, white space at both ends set aside, is the trigger.
pub open spec fn is_trigger_text(content: Seq<char>) -> bool {
    trim(content) == TRIGGER@
}

/// Whether `s` reads `t` from position `start` on, with nothing but white
/// space before it and after it.
pub open spec fn framed_at(s: Seq<char>, t: Seq<char>, start: int) -> bool {
    &&& 0 <= start
    &&& start + t.len() <= s.len()
    &&& forall|i: int| 0 <= i < start ==> is_whitespace(#[trigger] s[i])
    &&& forall|i: int| 0 <= i < t.len() ==> s[start + i] == #[trigger] t[i]
    &&& forall|i: int| start + t.len() <= i < s.len() ==> is_whitespace(#[trigger] s[i])
}

/// Trimming the end gives `t`, a text that does not itself end in white
/// space, exactly for the texts that start with `t` and go on with white
/// space only.
pub proof fn lemma_trim_end_gives(s: Seq<char>, t: Seq<char>)
    requires
        t.len() > 0 ==> !is_whitespace(t.last()),
    ensures
        trim_end(s) == t <==> {
            &&& t.is_prefix_of(s)
            &&& forall|i: int| t.len() <= i < s.len() ==> is_whitespace(#[trigger] s[i])
        },
    decreases s.len(),
{
    if s.len() > 0 && is_whitespace(s.last()) {
        let shorter = s.drop_last();
        lemma_trim_end_gives(shorter, t);
        if t.is_prefix_of(s) && t.len() == s.len() {
            assert(t =~= s);
        }
        if t.is_prefix_of(shorter) {
            assert(t =~= s.subrange(0, t.len() as int));
        }
        if t.is_prefix_of(s) && t.len() < s.len() {
            assert(t =~= shorter.subrange(0, t.len() as int));
        }
        assert(forall|i: int| 0 <= i < shorter.len() ==> shorter[i] == s[i]);
    } else {
        if t.is_prefix_of(s) && (forall|i: int|
            t.len() <= i < s.len() ==> is_whitespace(#[trigger] s[i])) {
            if t.len() < s.len() {
                assert(is_whitespace(s[s.len() - 1]));
            }
            assert(t =~= s);
        }
        if s == t {
            assert(t =~= s.subrange(0, t.len() as int));
        }
    }
}

/// Trimming the start gives `t`, a text that does not itself start with
/// white space, exactly for the texts that end with `t` and have white
/// space only before it.
pub proof fn lemma_trim_start_gives(s: Seq<char>, t: Seq<char>)
    requires
        t.len() > 0 ==> !is_whitespace(t.first()),
    ensures
        trim_start(s) == t <==> {
            &&& t.is_suffix_of(s)
            &&& forall|i: int| 0 <= i < s.len() - t.len() ==> is_whitespace(#[trigger] s[i])
        },
    decreases s.len(),
{
    let gap = s.len() - t.len();
    if s.len() > 0 && is_whitespace(s.first()) {
        let shorter = s.drop_first();
        lemma_trim_start_gives(shorter, t);
        if t.is_suffix_of(s) && t.len() == s.len() {
            assert(t =~= s);
        }
        if t.is_suffix_of(shorter) {
            assert(t =~= s.subrange(gap, s.len() as int));
        }
        if t.is_suffix_of(s) && t.len() < s.len() {
            assert(t =~= shorter.subrange(gap - 1, shorter.len() as int));
        }
        assert(forall|i: int| 0 <= i < shorter.len() ==> shorter[i] == s[i + 1]);
        if t.is_suffix_of(shorter) && (forall|i: int|
            0 <= i < shorter.len() - t.len() ==> is_whitespace(#[trigger] shorter[i])) {
            assert forall|i: int| 0 <= i < gap implies is_whitespace(#[trigger] s[i]) by {
                if i > 0 {
                    assert(s[i] == shorter[i - 1]);
                }
            }
        }
        if t.is_suffix_of(s) && (forall|i: int|
            0 <= i < gap ==> is_whitespace(#[trigger] s[i])) && t.len() < s.len() {
            assert forall|i: int| 0 <= i < shorter.len() - t.len() implies is_whitespace(
                #[trigger] shorter[i],
            ) by {
                assert(shorter[i] == s[i + 1]);
            }
        }
    } else {
        if t.is_suffix_of(s) && (forall|i: int|
            0 <= i < gap ==> is_whitespace(#[trigger] s[i])) {
            if t.len() < s.len() {
                assert(is_whitespace(s[0]));
            }
            assert(t =~= s);
        }
        if s == t {
            assert(t =~= s.subrange(0, s.len() as int));
        }
    }
}

/// What is left after trimming the end does not end in white space.
pub proof fn lemma_trim_end_is_trimmed(s: Seq<char>)
    ensures
        trim_end(s).len() <= s.len(),
        trim_end(s).len() > 0 ==> !is_whitespace(trim_end(s).last()),
    decreases s.len(),
{
    if s.len() > 0 && is_whitespace(s.last()) {
        lemma_trim_end_is_trimmed(s.drop_last());
    }
}

/// Trimming gives `t`, a text that neither starts nor ends with white space,
/// exactly for the texts that read `t` somewhere and have white space only
/// around it.
pub proof fn lemma_trim_gives(s: Seq<char>, t: Seq<char>)
    requires
        t.len() > 0,
        !is_whitespace(t.first()),
        !is_whitespace(t.last()),
    ensures
        trim(s) == t <==> exists|start: int| framed_at(s, t, start),
{
    let kept = trim_end(s);
    lemma_trim_end_is_trimmed(s);
    lemma_trim_end_gives(s, kept);
    lemma_trim_start_gives(kept, t);
    assert(forall|i: int| 0 <= i < kept.len() ==> kept[i] == s.subrange(0, kept.len() as int)[i]);
    if trim(s) == t {
        let start = kept.len() - t.len();
        assert(t =~= kept.subrange(start, kept.len() as int));
        assert forall|i: int| 0 <= i < t.len() implies s[start + i] == #[trigger] t[i] by {
            assert(t[i] == kept.subrange(start, kept.len() as int)[i]);
        }
        assert forall|i: int| 0 <= i < start implies is_whitespace(#[trigger] s[i]) by {
            assert(is_whitespace(kept[i]));
        }
        assert(framed_at(s, t, start));
    }
    if exists|start: int| framed_at(s, t, start) {
        let start = choose|start: int| framed_at(s, t, start);
        let end = start + t.len();
        let front = s.subrange(0, end);
        assert(s[end - 1] == t[t.len() - 1]);
        assert(front.last() == t.last());
        lemma_trim_end_gives(s, front);
        assert(front.is_prefix_of(s));
        assert(kept == front);
        assert(t =~= front.subrange(start, end));
        assert forall|i: int| 0 <= i < front.len() - t.len() implies is_whitespace(
            #[trigger] front[i],
        ) by {
            assert(front[i] == s[i]);
        }
        assert(t.is_suffix_of(front));
    }
}

/// The command is the trigger itself, in its exact spelling, with at most
/// white space before it and after it.
pub proof fn lemma_trigger_texts(content: Seq<char>)
    ensures
        TRIGGER@ == seq!['.', 's', 'n', 'i', 'p', 'e'],
        is_trigger_text(content) <==> exists|start: int| framed_at(content, TRIGGER@, start),
{
    reveal_strlit(".snipe");
    assert(TRIGGER@ =~= seq!['.', 's', 'n', 'i', 'p', 'e']);
    lemma_trim_gives(content, TRIGGER@);
}

/// Whether `c` is white space.
pub fn char_is_whitespace(c: char) -> (white: bool)
    ensures
        white == is_whitespace(c),
{
    let code = c as u32;
    (0x09 <= code && code <= 0x0D) || code == 0x20 || code == 0x85 || code == 0xA0 || code
        == 0x1680 || (0x2000 <= code && code <= 0x200A) || code == 0x2028 || code == 0x2029
        || code == 0x202F || code == 0x205F || code == 0x3000
}

/// Whether a message that reads `content` asks for a snipe.
pub fn is_trigger(content: &str) -> (asked: bool)
    ensures
        asked == is_trigger_text(content@),
{
    proof {
        lemma_trigger_texts(content@);
    }
    let ghost start: int = 0;
    let mut matched: usize = 0;
    for c in it: content.chars()
        invariant
            TRIGGER@ == seq!['.', 's', 'n', 'i', 'p', 'e'],
            it.seq() == content@,
            matched <= 6,
            matched == 0 ==> forall|i: int|
                0 <= i < it.index() ==> is_whitespace(#[trigger] content@[i]),
            matched > 0 ==> {
                &&& 0 <= start
                &&& start + matched <= it.index()
                &&& matched < 6 ==> start + matched == it.index()
                &&& forall|i: int| 0 <= i < start ==> is_whitespace(#[trigger] content@[i])
                &&& forall|i: int| 0 <= i < matched ==> content@[start + i] == #[trigger] TRIGGER@[i]
                &&& forall|i: int|
                    start + 6 <= i < it.index() ==> is_whitespace(#[trigger] content@[i])
            },
    {
        let ghost at = it.index() as int;
        assert(c == content@[at]);
        if matched == 0 {
            if !char_is_whitespace(c) {
                if c != TRIGGER.get_char(0) {
                    proof {
                        lemma_trigger_texts(content@);
                        assert forall|k: int| !framed_at(content@, TRIGGER@, k) by {
                            if framed_at(content@, TRIGGER@, k) {
                                assert(content@[k + 0] == TRIGGER@[0]);
                                assert(k < at ==> is_whitespace(content@[k]));
                                assert(k > at ==> is_whitespace(content@[at]));
                            }
                        }
                    }
                    return false;
                }
                proof {
                    start = at;
                }
                matched = 1;
            }
        } else if matched < 6 {
            if c != TRIGGER.get_char(matched) {
                proof {
                    lemma_trigger_texts(content@);
                    assert forall|k: int| !framed_at(content@, TRIGGER@, k) by {
                        if framed_at(content@, TRIGGER@, k) {
                            assert(content@[k + 0] == TRIGGER@[0]);
                            assert(content@[start + 0] == TRIGGER@[0]);
                            assert(k < start ==> is_whitespace(content@[k]));
                            assert(k > start ==> is_whitespace(content@[start]));
                            assert(content@[k + matched] == TRIGGER@[matched as int]);
                        }
                    }
                }
                return false;
            }
            matched += 1;
        } else if !char_is_whitespace(c) {
            proof {
                lemma_trigger_texts(content@);
                assert forall|k: int| !framed_at(content@, TRIGGER@, k) by {
                    if framed_at(content@, TRIGGER@, k) {
                        assert(content@[k + 0] == TRIGGER@[0]);
                        assert(content@[start + 0] == TRIGGER@[0]);
                        assert(k < start ==> is_whitespace(content@[k]));
                        assert(k > start ==> is_whitespace(content@[start]));
                        assert(is_whitespace(content@[at]));
                    }
                }
            }
            return false;
        }
    }
    proof {
        if matched == 6 {
            assert(framed_at(content@, TRIGGER@, start));
        } else {
            assert forall|k: int| !framed_at(content@, TRIGGER@, k) by {
                if framed_at(content@, TRIGGER@, k) {
                    assert(content@[k + 0] == TRIGGER@[0]);
                    if matched > 0 {
                        assert(content@[start + 0] == TRIGGER@[0]);
                        assert(k < start ==> is_whitespace(content@[k]));
                        assert(k > start ==> is_whitespace(content@[start]));
                    } else {
                        assert(is_whitespace(content@[k]));
                    }
                }
            }
        }
    }
    matched == 6
}

} // verus!
