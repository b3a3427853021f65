//! Cleaning recognised text and checking it against the plate format.

use vstd::prelude::*;

verus! {

/// Fewest characters a plate may have.
pub const MIN_PLATE_LENGTH: usize = 4;

/// Most characters a plate may have.
pub const MAX_PLATE_LENGTH: usize = 10;

/// The Unicode property White_Space.
pub open spec fn is_white_space(c: char) -> bool {
    let u = c as u32;
    ||| 0x09 <= u <= 0x0d
    ||| u == 0x20
    ||| u == 0x85
    ||| u == 0xa0
    ||| u == 0x1680
    ||| 0x2000 <= u <= 0x200a
    ||| u == 0x2028
    ||| u == 0x2029
    ||| u == 0x202f
    ||| u == 0x205f
    ||| u == 0x3000
}

/// `c` is a line feed or a space: what is removed from inside a text.
pub open spec fn is_separator(c: char) -> bool {
    c == '\n' || c == ' '
}

/// `c` is an ASCII character.
pub open spec fn is_ascii_char(c: char) -> bool {
    c as u32 <= 0x7f
}

/// Every character of `s` is an ASCII character.
pub open spec fn is_ascii_text(s: Seq<char>) -> bool {
    forall|i: int| 0 <= i < s.len() ==> is_ascii_char(#[trigger] s[i])
}

/// The upper-case form of an ASCII character: `a` to `z` become `A` to `Z`.
pub open spec fn ascii_upper(c: char) -> char {
    if 'a' <= c <= 'z' {
        ((c as u8) - 32) as char
    } else {
        c
    }
}

/// `c` may stand in a plate: `A` to `Z`, `0` to `9`, or a hyphen.
pub open spec fn is_plate_char(c: char) -> bool {
    'A' <= c <= 'Z' || '0' <= c <= '9' || c == '-'
}

/// The plate format: four to ten plate characters.
pub open spec fn is_valid_plate(s: Seq<char>) -> bool {
    &&& MIN_PLATE_LENGTH <= s.len() <= MAX_PLATE_LENGTH
    &&& forall|i: int| 0 <= i < s.len() ==> is_plate_char(#[trigger] s[i])
}

/// What `char::to_uppercase` yields for a character.
pub uninterp spec fn char_uppercase(c: char) -> Seq<char>;

/// The upper-case form of one character: that of ASCII for an ASCII
/// character, the Unicode mapping for any other.
pub open spec fn upper_of_char(c: char) -> Seq<char> {
    if is_ascii_char(c) {
        seq![ascii_upper(c)]
    } else {
        char_uppercase(c)
    }
}

/// `s` without the white space it begins with.
pub open spec fn trim_start(s: Seq<char>) -> Seq<char>
    decreases s.len(),
{
    if s.len() > 0 && is_white_space(s[0]) {
        trim_start(s.drop_first())
    } else {
        s
    }
}

/// `s` without the white space it ends with.
pub open spec fn trim_end(s: Seq<char>) -> Seq<char>
    decreases s.len(),
{
    if s.len() > 0 && is_white_space(s.last()) {
        trim_end(s.drop_last())
    } else {
        s
    }
}

/// `s` without the white space around it.
pub open spec fn trimmed(s: Seq<char>) -> Seq<char> {
    trim_end(trim_start(s))
}

/// `s` without its line feeds and spaces.
pub open spec fn without_separators(s: Seq<char>) -> Seq<char>
    decreases s.len(),
{
    if s.len() == 0 {
        s
    } else if is_separator(s.last()) {
        without_separators(s.drop_last())
    } else {
        without_separators(s.drop_last()).push(s.last())
    }
}

/// `s` with every character in upper case.
pub open spec fn uppercased(s: Seq<char>) -> Seq<char>
    decreases s.len(),
{
    if s.len() == 0 {
        s
    } else {
        uppercased(s.drop_last()) + upper_of_char(s.last())
    }
}

/// The normal form of a recognised text: trimmed, freed of separators, in upper case.
pub open spec fn normalized(s: Seq<char>) -> Seq<char> {
    uppercased(without_separators(trimmed(s)))
}

/// Calls `char::to_uppercase` and collects the characters it yields, which are named.
#[verifier::external_body]
fn unicode_uppercase(c: char) -> (r: Vec<char>)
    ensures
        r@ == char_uppercase(c),
{
    c.to_uppercase().collect()
}

/// `String::push` appends one character.
pub assume_specification[ String::push ](s: &mut String, c: char)
    ensures
        final(s)@ == old(s)@.push(c),
;

/// Tests the Unicode property White_Space.
pub fn is_whitespace(c: char) -> (r: bool)
    ensures
        r == is_white_space(c),
{
    let u: u32 = c as u32;
    (0x09 <= u && u <= 0x0d) || u == 0x20 || u == 0x85 || u == 0xa0 || u == 0x1680 || (0x2000 <= u
        && u <= 0x200a) || u == 0x2028 || u == 0x2029 || u == 0x202f || u == 0x205f || u == 0x3000
}

/// The characters of a text.
pub fn chars_of(text: &str) -> (r: Vec<char>)
    ensures
        r@ == text@,
{
    let mut out: Vec<char> = Vec::new();
    for c in it: text.chars()
        invariant
            it.seq() == text@,
            out@ == it.seq().take(it.index() as int),
    {
        proof {
            assert(it.seq().take(it.index() + 1).drop_last() == it.seq().take(it.index() as int));
        }
        out.push(c);
    }
    proof {
        assert(text@.take(text@.len() as int) == text@);
    }
    out
}

/// Trimming at the front drops exactly the leading run of white space.
pub proof fn lemma_trim_start(s: Seq<char>, k: int)
    requires
        0 <= k <= s.len(),
        forall|i: int| 0 <= i < k ==> is_white_space(s[i]),
        k < s.len() ==> !is_white_space(s[k]),
    ensures
        trim_start(s) == s.skip(k),
    decreases k,
{
    if k == 0 {
        assert(s.skip(0) == s);
    } else {
        let rest = s.drop_first();
        assert forall|i: int| 0 <= i < k - 1 implies is_white_space(rest[i]) by {
            assert(rest[i] == s[i + 1]);
        }
        lemma_trim_start(rest, k - 1);
        assert(rest.skip(k - 1) == s.skip(k));
    }
}

/// Trimming at the back drops exactly the trailing run of white space.
pub proof fn lemma_trim_end(s: Seq<char>, k: int)
    requires
        0 <= k <= s.len(),
        forall|i: int| k <= i < s.len() ==> is_white_space(s[i]),
        k > 0 ==> !is_white_space(s[k - 1]),
    ensures
        trim_end(s) == s.take(k),
    decreases s.len() - k,
{
    if k == s.len() {
        assert(s.take(k) == s);
    } else {
        let rest = s.drop_last();
        lemma_trim_end(rest, k);
        assert(rest.take(k) == s.take(k));
    }
}

/// The text without the white space around it.
pub fn trim(text: &str) -> (r: String)
    ensures
        r@ == trimmed(text@),
{
    let chars: Vec<char> = chars_of(text);
    let n: usize = chars.len();
    let mut start: usize = 0;
    while start < n && is_whitespace(chars[start])
        invariant
            start <= n,
            n == chars.len(),
            forall|i: int| 0 <= i < start ==> is_white_space(chars@[i]),
        decreases n - start,
    {
        start = start + 1;
    }
    let mut end: usize = n;
    while end > start && is_whitespace(chars[end - 1])
        invariant
            start <= end <= n,
            n == chars.len(),
            forall|i: int| end <= i < n ==> is_white_space(chars@[i]),
        decreases end,
    {
        end = end - 1;
    }
    proof {
        let front = chars@.skip(start as int);
        lemma_trim_start(chars@, start as int);
        lemma_trim_end(front, end - start);
        assert(front.take(end - start) == chars@.subrange(start as int, end as int));
    }
    let mut out: String = String::new();
    let mut i: usize = start;
    while i < end
        invariant
            start <= i <= end <= n,
            n == chars.len(),
            out@ == chars@.subrange(start as int, i as int),
        decreases end - i,
    {
        out.push(chars[i]);
        proof {
            assert(chars@.subrange(start as int, i + 1) == chars@.subrange(
                start as int,
                i as int,
            ).push(chars@[i as int]));
        }
        i = i + 1;
    }
    out
}

/// Turns a text into its normal form: strips the white space around it,
/// removes the line feeds and spaces inside it, and puts it in upper case.
pub fn normalize(text: &str) -> (r: String)
    ensures
        r@ == normalized(text@),
{
    let stripped: String = trim(text);
    let chars: Vec<char> = chars_of(stripped.as_str());
    let n: usize = chars.len();
    let mut out: String = String::new();
    let mut i: usize = 0;
    proof {
        assert(chars@.take(0).len() == 0);
    }
    while i < n
        invariant
            i <= n,
            n == chars.len(),
            out@ == uppercased(without_separators(chars@.take(i as int))),
        decreases n - i,
    {
        let c: char = chars[i];
        let ghost before = chars@.take(i as int);
        let ghost now = chars@.take(i + 1);
        let ghost kept = without_separators(before);
        proof {
            assert(now.drop_last() == before);
            assert(now.last() == c);
        }
        if c != '\n' && c != ' ' {
            proof {
                assert(without_separators(now) == kept.push(c));
                assert(kept.push(c).drop_last() == kept);
            }
            if c as u32 <= 0x7f {
                let upper: char = if 'a' <= c && c <= 'z' {
                    ((c as u8) - 32) as char
                } else {
                    c
                };
                out.push(upper);
                proof {
                    assert(uppercased(kept) + seq![upper] == uppercased(kept).push(upper));
                }
            } else {
                let mapped: Vec<char> = unicode_uppercase(c);
                let ghost base = out@;
                let mut k: usize = 0;
                while k < mapped.len()
                    invariant
                        k <= mapped.len(),
                        out@ == base + mapped@.take(k as int),
                    decreases mapped.len() - k,
                {
                    out.push(mapped[k]);
                    proof {
                        assert(mapped@.take(k + 1) == mapped@.take(k as int).push(mapped@[k as int]));
                    }
                    k = k + 1;
                }
                proof {
                    assert(mapped@.take(mapped@.len() as int) == mapped@);
                }
            }
        }
        i = i + 1;
    }
    proof {
        assert(chars@.take(n as int) == chars@);
    }
    out
}

/// Tests a text against the plate format.
pub fn is_plate(text: &str) -> (r: bool)
    ensures
        r == is_valid_plate(text@),
{
    let chars: Vec<char> = chars_of(text);
    let n: usize = chars.len();
    if n < MIN_PLATE_LENGTH || n > MAX_PLATE_LENGTH {
        return false;
    }
    let mut i: usize = 0;
    while i < n
        invariant
            i <= n,
            n == chars.len(),
            chars@ == text@,
            forall|k: int| 0 <= k < i ==> is_plate_char(#[trigger] chars@[k]),
        decreases n - i,
    {
        let c: char = chars[i];
        if !(('A' <= c && c <= 'Z') || ('0' <= c && c <= '9') || c == '-') {
            assert(!is_plate_char(text@[i as int]));
            return false;
        }
        i = i + 1;
    }
    true
}

/// `c` is its own upper-case form.
pub open spec fn is_settled(c: char) -> bool {
    upper_of_char(c) == seq![c]
}

/// A text that normalisation leaves as it is: every character is its own
/// upper-case form, none is a separator, and there is no white space at
/// either end.
pub open spec fn is_normal_form(s: Seq<char>) -> bool {
    &&& forall|i: int| 0 <= i < s.len() ==> is_settled(#[trigger] s[i]) && !is_separator(s[i])
    &&& s.len() > 0 ==> !is_white_space(s[0]) && !is_white_space(s.last())
}

/// An ASCII character that is no lower-case letter is its own upper-case form.
pub proof fn lemma_ascii_settled(c: char)
    requires
        is_ascii_char(c),
        !('a' <= c <= 'z'),
    ensures
        is_settled(c),
{
}

proof fn lemma_without_separators_same(s: Seq<char>)
    requires
        forall|i: int| 0 <= i < s.len() ==> !is_separator(#[trigger] s[i]),
    ensures
        without_separators(s) == s,
    decreases s.len(),
{
    if s.len() > 0 {
        lemma_without_separators_same(s.drop_last());
        assert(s.drop_last().push(s.last()) == s);
    }
}

proof fn lemma_uppercased_same(s: Seq<char>)
    requires
        forall|i: int| 0 <= i < s.len() ==> is_settled(#[trigger] s[i]),
    ensures
        uppercased(s) == s,
    decreases s.len(),
{
    if s.len() > 0 {
        lemma_uppercased_same(s.drop_last());
        assert(s.drop_last() + seq![s.last()] == s);
    }
}

/// Normalising a text in normal form changes nothing.
pub proof fn lemma_normal_form_is_fixed(s: Seq<char>)
    requires
        is_normal_form(s),
    ensures
        normalized(s) == s,
{
    lemma_without_separators_same(s);
    lemma_uppercased_same(s);
}

/// A valid plate is in normal form, so normalising it changes nothing.
pub proof fn lemma_valid_plate_is_fixed(s: Seq<char>)
    requires
        is_valid_plate(s),
    ensures
        is_normal_form(s),
        normalized(s) == s,
{
    assert(is_plate_char(s[0]) && is_plate_char(s.last()));
    assert forall|i: int| 0 <= i < s.len() implies is_settled(#[trigger] s[i]) && !is_separator(
        s[i],
    ) by {
        assert(is_plate_char(s[i]));
    }
    lemma_normal_form_is_fixed(s);
}

/// What trimming leaves is a stretch of the text that neither begins nor ends
/// with white space.
pub proof fn lemma_trimmed_shape(s: Seq<char>) -> (bounds: (int, int))
    ensures
        0 <= bounds.0 <= bounds.1 <= s.len(),
        trimmed(s) == s.subrange(bounds.0, bounds.1),
        trimmed(s).len() > 0 ==> !is_white_space(trimmed(s)[0]) && !is_white_space(
            trimmed(s).last(),
        ),
{
    let start = lemma_trim_start_shape(s);
    let front = s.skip(start);
    let len = lemma_trim_end_shape(front);
    assert(front.take(len) == s.subrange(start, start + len));
    if len > 0 {
        assert(front.take(len)[0] == front[0]);
    }
    (start, start + len)
}

proof fn lemma_trim_start_shape(s: Seq<char>) -> (k: int)
    ensures
        0 <= k <= s.len(),
        trim_start(s) == s.skip(k),
        k < s.len() ==> !is_white_space(s[k]),
    decreases s.len(),
{
    if s.len() > 0 && is_white_space(s[0]) {
        let k = lemma_trim_start_shape(s.drop_first());
        assert(s.drop_first().skip(k) == s.skip(k + 1));
        k + 1
    } else {
        assert(s.skip(0) == s);
        0
    }
}

proof fn lemma_trim_end_shape(s: Seq<char>) -> (k: int)
    ensures
        0 <= k <= s.len(),
        trim_end(s) == s.take(k),
        k > 0 ==> !is_white_space(s[k - 1]),
    decreases s.len(),
{
    if s.len() > 0 && is_white_space(s.last()) {
        let k = lemma_trim_end_shape(s.drop_last());
        assert(s.drop_last().take(k) == s.take(k));
        k
    } else {
        assert(s.take(s.len() as int) == s);
        s.len() as int
    }
}

/// Removing the separators of an ASCII text that neither begins nor ends with
/// white space leaves an ASCII text without separators that begins and ends
/// as before.
proof fn lemma_without_separators_shape(s: Seq<char>)
    requires
        is_ascii_text(s),
    ensures
        is_ascii_text(without_separators(s)),
        forall|i: int|
            0 <= i < without_separators(s).len() ==> !is_separator(
                #[trigger] without_separators(s)[i],
            ),
        s.len() > 0 && !is_separator(s[0]) ==> without_separators(s).len() > 0
            && without_separators(s)[0] == s[0],
        s.len() > 0 && !is_separator(s.last()) ==> without_separators(s).len() > 0
            && without_separators(s).last() == s.last(),
    decreases s.len(),
{
    if s.len() > 0 {
        let head = s.drop_last();
        assert forall|i: int| 0 <= i < head.len() implies is_ascii_char(#[trigger] head[i]) by {
            assert(head[i] == s[i]);
        }
        lemma_without_separators_shape(head);
        if head.len() > 0 {
            assert(head[0] == s[0]);
        }
    }
}

/// The upper-case form of an ASCII text has, place by place, the upper-case
/// form of each character.
proof fn lemma_uppercased_ascii(s: Seq<char>)
    requires
        is_ascii_text(s),
    ensures
        uppercased(s).len() == s.len(),
        forall|i: int| 0 <= i < s.len() ==> #[trigger] uppercased(s)[i] == ascii_upper(s[i]),
    decreases s.len(),
{
    if s.len() > 0 {
        let head = s.drop_last();
        assert forall|i: int| 0 <= i < head.len() implies is_ascii_char(#[trigger] head[i]) by {
            assert(head[i] == s[i]);
        }
        lemma_uppercased_ascii(head);
        assert(is_ascii_char(s[s.len() - 1]));
        assert forall|i: int| 0 <= i < s.len() implies #[trigger] uppercased(s)[i] == ascii_upper(
            s[i],
        ) by {
            if i < head.len() {
                assert(uppercased(s)[i] == uppercased(head)[i]);
                assert(head[i] == s[i]);
            }
        }
    }
}

/// The normal form of an ASCII text is in normal form.
pub proof fn lemma_ascii_normalizes(s: Seq<char>)
    requires
        is_ascii_text(s),
    ensures
        is_normal_form(normalized(s)),
{
    let (start, end) = lemma_trimmed_shape(s);
    let t = trimmed(s);
    assert forall|i: int| 0 <= i < t.len() implies is_ascii_char(#[trigger] t[i]) by {
        assert(t[i] == s[start + i]);
    }
    let u = without_separators(t);
    lemma_without_separators_shape(t);
    lemma_uppercased_ascii(u);
    let n = uppercased(u);
    assert forall|i: int| 0 <= i < n.len() implies is_settled(#[trigger] n[i]) && !is_separator(
        n[i],
    ) by {
        assert(n[i] == ascii_upper(u[i]));
        assert(is_ascii_char(u[i]) && !is_separator(u[i]));
        lemma_ascii_settled(n[i]);
    }
    if n.len() > 0 {
        assert(n[0] == ascii_upper(u[0]));
        assert(n.last() == ascii_upper(u[u.len() - 1]));
    }
}

/// Normalising twice gives what normalising once gives, for every text whose
/// normal form holds only characters that are their own upper-case form, no
/// separator, and no white space at either end.
pub proof fn lemma_normalize_idempotent(s: Seq<char>)
    requires
        is_normal_form(normalized(s)),
    ensures
        normalized(normalized(s)) == normalized(s),
{
    lemma_normal_form_is_fixed(normalized(s));
}

/// Normalising twice gives what normalising once gives, for every text of
/// ASCII characters.
pub proof fn lemma_normalize_idempotent_ascii(s: Seq<char>)
    requires
        is_ascii_text(s),
    ensures
        normalized(normalized(s)) == normalized(s),
{
    lemma_ascii_normalizes(s);
    lemma_normal_form_is_fixed(normalized(s));
}

/// Normalising twice gives what normalising once gives, for every text whose
/// normal form is a valid plate.
pub proof fn lemma_normalize_idempotent_plate(s: Seq<char>)
    requires
        is_valid_plate(normalized(s)),
    ensures
        normalized(normalized(s)) == normalized(s),
{
    lemma_valid_plate_is_fixed(normalized(s));
}

} // verus!
