//! Text helpers: comparing, trimming and joining strings.
use vstd::prelude::*;

verus! {

/// The characters that carry the Unicode property `White_Space`.
pub open spec fn is_white_space(c: char) -> bool {
    ||| 0x9 <= c as int <= 0xd
    ||| c as int == 0x20
    ||| c as int == 0x85
    ||| c as int == 0xa0
    ||| c as int == 0x1680
    ||| 0x2000 <= c as int <= 0x200a
    ||| c as int == 0x2028
    ||| c as int == 0x2029
    ||| c as int == 0x202f
    ||| c as int == 0x205f
    ||| c as int == 0x3000
}

/// `s` without its leading white space.
pub open spec fn trim_front(s: Seq<char>) -> Seq<char>
    decreases s.len(),
{
    if s.len() > 0 && is_white_space(s.first()) {
        trim_front(s.drop_first())
    } else {
        s
    }
}

/// `s` without its trailing white space.
pub open spec fn trim_back(s: Seq<char>) -> Seq<char>
    decreases s.len(),
{
    if s.len() > 0 && is_white_space(s.last()) {
        trim_back(s.drop_last())
    } else {
        s
    }
}

/// `s` without the white space at either end.
pub open spec fn trimmed(s: Seq<char>) -> Seq<char> {
    trim_back(trim_front(s))
}

/// Holds of a text that is empty or made of white space alone.
pub open spec fn is_blank(s: Seq<char>) -> bool {
    forall|i: int| 0 <= i < s.len() ==> is_white_space(#[trigger] s[i])
}

/// Wraps `==` on `str`: two string slices are equal exactly when they hold the same characters.
#[verifier::external_body]
pub(crate) fn str_eq(a: &str, b: &str) -> (same: bool)
    ensures
        same == (a@ == b@),
{
    a == b
}

/// Wraps `str::trim`, which removes leading and trailing characters that have the Unicode
/// property `White_Space`.
#[verifier::external_body]
pub(crate) fn str_trim(s: &str) -> (rest: &str)
    ensures
        rest@ == trimmed(s@),
{
    s.trim()
}

proof fn lemma_trim_front(s: Seq<char>)
    ensures
        trim_front(s).len() == 0 <==> is_blank(s),
        trim_front(s).len() > 0 ==> !is_white_space(trim_front(s)[0]),
    decreases s.len(),
{
    if s.len() > 0 && is_white_space(s.first()) {
        let rest = s.drop_first();
        lemma_trim_front(rest);
        if is_blank(rest) {
            assert forall|i: int| 0 <= i < s.len() implies is_white_space(#[trigger] s[i]) by {
                if i > 0 {
                    assert(s[i] == rest[i - 1]);
                }
            }
        }
        if is_blank(s) {
            assert forall|i: int| 0 <= i < rest.len() implies is_white_space(
                #[trigger] rest[i],
            ) by {
                assert(rest[i] == s[i + 1]);
            }
        }
    }
}

proof fn lemma_trim_back(s: Seq<char>)
    requires
        s.len() > 0,
        !is_white_space(s[0]),
    ensures
        trim_back(s).len() > 0,
    decreases s.len(),
{
    if is_white_space(s.last()) {
        assert(s.drop_last()[0] == s[0]);
        lemma_trim_back(s.drop_last());
    }
}

/// A text trims to nothing exactly when it is blank.
pub proof fn lemma_trimmed_empty(s: Seq<char>)
    ensures
        trimmed(s).len() == 0 <==> is_blank(s),
{
    lemma_trim_front(s);
    if trim_front(s).len() > 0 {
        lemma_trim_back(trim_front(s));
    }
}

/// Whether `s` is blank.
pub fn is_blank_text(s: &str) -> (blank: bool)
    ensures
        blank == is_blank(s@),
{
    proof {
        lemma_trimmed_empty(s@);
    }
    str_trim(s).is_empty()
}

/// `parts` written one after the other with `sep` between neighbours.
pub open spec fn joined(parts: Seq<Seq<char>>, sep: Seq<char>) -> Seq<char>
    decreases parts.len(),
{
    if parts.len() == 0 {
        Seq::empty()
    } else if parts.len() == 1 {
        parts[0]
    } else {
        joined(parts.drop_last(), sep) + sep + parts.last()
    }
}

/// `joined` of `parts` with one more part at the end.
pub proof fn lemma_joined_push(parts: Seq<Seq<char>>, sep: Seq<char>, part: Seq<char>)
    ensures
        joined(parts.push(part), sep) == if parts.len() == 0 {
            part
        } else {
            joined(parts, sep) + sep + part
        },
{
    assert(parts.push(part).drop_last() =~= parts);
}

/// Joins `parts` with `sep` between neighbours.
pub fn join(parts: &Vec<String>, sep: &str) -> (text: String)
    ensures
        text@ == joined(parts.deep_view(), sep@),
{
    let mut text = String::new();
    let mut i: usize = 0;
    while i < parts.len()
        invariant
            i <= parts.len(),
            text@ == joined(parts.deep_view().take(i as int), sep@),
        decreases parts.len() - i,
    {
        proof {
            assert(parts.deep_view().take(i + 1) =~= parts.deep_view().take(i as int).push(
                parts[i as int]@,
            ));
            lemma_joined_push(parts.deep_view().take(i as int), sep@, parts[i as int]@);
        }
        if i > 0 {
            text.append(sep);
        }
        text.append(parts[i].as_str());
        i += 1;
    }
    assert(parts.deep_view().take(parts.len() as int) =~= parts.deep_view());
    text
}

/// Blanks, tabs and line ends are white space; visible ASCII characters are not.
pub proof fn law_white_space(c: char)
    ensures
        c == ' ' || c == '\t' || c == '\n' || c == '\r' ==> is_white_space(c),
        '!' <= c <= '~' ==> !is_white_space(c),
{
}

proof fn lemma_trim_front_is_a_suffix(s: Seq<char>)
    ensures
        trim_front(s).len() <= s.len(),
        trim_front(s) == s.skip(s.len() - trim_front(s).len()),
        forall|i: int| 0 <= i < s.len() - trim_front(s).len() ==> is_white_space(#[trigger] s[i]),
    decreases s.len(),
{
    if s.len() > 0 && is_white_space(s.first()) {
        let rest = s.drop_first();
        lemma_trim_front_is_a_suffix(rest);
        let n = s.len() - trim_front(s).len();
        assert(rest.skip(n - 1) =~= s.skip(n));
        assert forall|i: int| 0 <= i < n implies is_white_space(#[trigger] s[i]) by {
            if i > 0 {
                assert(s[i] == rest[i - 1]);
            }
        }
    } else {
        assert(s.skip(0) =~= s);
    }
}

proof fn lemma_trim_back_is_a_prefix(s: Seq<char>)
    ensures
        trim_back(s).len() <= s.len(),
        trim_back(s) == s.take(trim_back(s).len() as int),
        forall|i: int| trim_back(s).len() <= i < s.len() ==> is_white_space(#[trigger] s[i]),
        trim_back(s).len() > 0 ==> !is_white_space(trim_back(s).last()),
    decreases s.len(),
{
    if s.len() > 0 && is_white_space(s.last()) {
        let rest = s.drop_last();
        lemma_trim_back_is_a_prefix(rest);
        let n = trim_back(s).len() as int;
        assert(rest.take(n) =~= s.take(n));
        assert forall|i: int| n <= i < s.len() implies is_white_space(#[trigger] s[i]) by {
            if i < rest.len() {
                assert(s[i] == rest[i]);
            }
        }
    } else {
        assert(s.take(s.len() as int) =~= s);
    }
}

/// Trimming takes white space off both ends of a text, and nothing else: what is left stands in the
/// text with white space alone before and behind it, and neither starts nor ends with any.
pub proof fn law_trimmed(s: Seq<char>) -> (start: int)
    ensures
        0 <= start,
        start + trimmed(s).len() <= s.len(),
        trimmed(s) == s.subrange(start, start + trimmed(s).len()),
        forall|i: int| 0 <= i < start ==> is_white_space(#[trigger] s[i]),
        forall|i: int| start + trimmed(s).len() <= i < s.len() ==> is_white_space(#[trigger] s[i]),
        trimmed(s).len() > 0 ==> !is_white_space(trimmed(s)[0]) && !is_white_space(
            trimmed(s).last(),
        ),
{
    let front = trim_front(s);
    let start = s.len() - front.len();
    lemma_trim_front(s);
    lemma_trim_front_is_a_suffix(s);
    lemma_trim_back_is_a_prefix(front);
    assert(trimmed(s) =~= s.subrange(start, start + trimmed(s).len()));
    assert forall|i: int| start + trimmed(s).len() <= i < s.len() implies is_white_space(
        #[trigger] s[i],
    ) by {
        assert(s[i] == front[i - start]);
    }
    start
}

/// A text is blank where all its characters are white space, which is where trimming leaves nothing
/// of it; a text with a visible character is not.
pub proof fn law_blank(s: Seq<char>, i: int)
    ensures
        is_blank(s) <==> trimmed(s).len() == 0,
        is_blank(Seq::empty()),
        0 <= i < s.len() && '!' <= s[i] <= '~' ==> !is_blank(s),
        (forall|j: int|
            0 <= j < s.len() ==> (#[trigger] s[j] == ' ' || s[j] == '\t' || s[j] == '\n' || s[j]
                == '\r')) ==> is_blank(s),
{
    lemma_trimmed_empty(s);
    if 0 <= i < s.len() && '!' <= s[i] <= '~' {
        law_white_space(s[i]);
    }
}

/// Joining nothing gives nothing, joining one text gives that text, and one more text adds the
/// separator and itself, character for character.
pub proof fn law_joined(parts: Seq<Seq<char>>, sep: Seq<char>, part: Seq<char>)
    ensures
        joined(Seq::empty(), sep) == Seq::<char>::empty(),
        joined(seq![part], sep) == part,
        parts.len() > 0 ==> joined(parts.push(part), sep) == joined(parts, sep) + sep + part,
{
    lemma_joined_push(parts, sep, part);
}

} // verus!
