use vstd::prelude::*;

verus! {

/// Whether `c` is an ASCII letter.
pub open spec fn is_ascii_alphabetic(c: char) -> bool {
    ('a' <= c && c <= 'z') || ('A' <= c && c <= 'Z')
}

/// Whether `c` is an ASCII decimal digit.
pub open spec fn is_ascii_digit(c: char) -> bool {
    '0' <= c && c <= '9'
}

/// Whether `c` is an ASCII letter or decimal digit.
pub open spec fn is_ascii_alphanumeric(c: char) -> bool {
    is_ascii_alphabetic(c) || is_ascii_digit(c)
}

/// The characters a display name may hold.
pub open spec fn is_name_char(c: char) -> bool {
    is_ascii_alphanumeric(c)
}

/// The characters a password may hold.
pub open spec fn is_password_char(c: char) -> bool {
    is_ascii_alphanumeric(c) || c == '-' || c == '_'
}

/// The characters an email address may hold.
pub open spec fn is_email_char(c: char) -> bool {
    is_ascii_alphanumeric(c) || c == '-' || c == '_' || c == '@' || c == '.'
}

/// The characters a social media handle may hold.
pub open spec fn is_handle_char(c: char) -> bool {
    is_ascii_alphanumeric(c) || c == '-' || c == '_' || c == ',' || c == '\'' || c == ' '
}

/// `is_name_char` as a predicate value.
pub open spec fn name_chars() -> spec_fn(char) -> bool {
    |c: char| is_name_char(c)
}

/// `is_password_char` as a predicate value.
pub open spec fn password_chars() -> spec_fn(char) -> bool {
    |c: char| is_password_char(c)
}

/// `is_email_char` as a predicate value.
pub open spec fn email_chars() -> spec_fn(char) -> bool {
    |c: char| is_email_char(c)
}

/// `is_handle_char` as a predicate value.
pub open spec fn handle_chars() -> spec_fn(char) -> bool {
    |c: char| is_handle_char(c)
}

/// `is_ascii_digit` as a predicate value.
pub open spec fn digit_chars() -> spec_fn(char) -> bool {
    |c: char| is_ascii_digit(c)
}

/// The position of the last `c` in `s`, if `s` holds one.
pub open spec fn last_index_of(s: Seq<char>, c: char) -> Option<int>
    decreases s.len(),
{
    if s.len() == 0 {
        None
    } else if s.last() == c {
        Some(s.len() - 1)
    } else {
        last_index_of(s.drop_last(), c)
    }
}

/// Whether `i` is the position of the last `c` in `s`.
pub open spec fn is_last_index_of(s: Seq<char>, c: char, i: int) -> bool {
    &&& 0 <= i < s.len()
    &&& s[i] == c
    &&& forall|j: int| i < j < s.len() ==> s[j] != c
}

/// Whether every character of `s` satisfies `keep`.
pub open spec fn all_chars(s: Seq<char>, keep: spec_fn(char) -> bool) -> bool {
    forall|i: int| 0 <= i < s.len() ==> keep(#[trigger] s[i])
}

/// `s` itself when it has at most `max` characters, else its first `max`.
pub open spec fn clamp(s: Seq<char>, max: nat) -> Seq<char> {
    if s.len() > max {
        s.take(max as int)
    } else {
        s
    }
}

/// Decides `is_ascii_alphabetic`.
pub(crate) fn ascii_alphabetic(c: char) -> (r: bool)
    ensures
        r == is_ascii_alphabetic(c),
{
    ('a' <= c && c <= 'z') || ('A' <= c && c <= 'Z')
}

/// Decides `is_ascii_digit`.
pub(crate) fn ascii_digit(c: char) -> (r: bool)
    ensures
        r == is_ascii_digit(c),
{
    '0' <= c && c <= '9'
}

/// Decides `is_ascii_alphanumeric`.
pub(crate) fn ascii_alphanumeric(c: char) -> (r: bool)
    ensures
        r == is_ascii_alphanumeric(c),
{
    ascii_alphabetic(c) || ascii_digit(c)
}

/// Decides `is_name_char`.
pub(crate) fn name_char(ch: &char) -> (r: bool)
    ensures
        r == is_name_char(*ch),
{
    ascii_alphanumeric(*ch)
}

/// Decides `is_password_char`.
pub(crate) fn password_char(ch: &char) -> (r: bool)
    ensures
        r == is_password_char(*ch),
{
    ascii_alphanumeric(*ch) || *ch == '-' || *ch == '_'
}

/// Decides `is_email_char`.
pub(crate) fn email_char(ch: &char) -> (r: bool)
    ensures
        r == is_email_char(*ch),
{
    ascii_alphanumeric(*ch) || *ch == '-' || *ch == '_' || *ch == '@' || *ch == '.'
}

/// Decides `is_handle_char`.
pub(crate) fn handle_char(ch: &char) -> (r: bool)
    ensures
        r == is_handle_char(*ch),
{
    ascii_alphanumeric(*ch) || *ch == '-' || *ch == '_' || *ch == ',' || *ch == '\'' || *ch == ' '
}

/// Appends one character to a string, by `String::push`: the string's
/// characters afterwards are those it had, followed by `c`.
#[verifier::external_body]
fn push_char(s: &mut String, c: char)
    ensures
        final(s)@ == old(s)@.push(c),
{
    s.push(c)
}

/// The characters of `input` that `predicate` accepts, in their order and
/// with their multiplicity. `keep` is what `predicate` decides.
pub(crate) fn filter_chars<F: Fn(&char) -> bool>(
    input: &str,
    predicate: F,
    Ghost(keep): Ghost<spec_fn(char) -> bool>,
) -> (out: String)
    requires
        forall|c: &char| call_requires(predicate, (c,)),
        forall|c: &char, b: bool| call_ensures(predicate, (c,), b) ==> b == keep(*c),
    ensures
        out@ == input@.filter(keep),
        all_chars(out@, keep),
{
    let mut out = String::new();
    for c in it: input.chars()
        invariant
            it.seq() == input@,
            out@ == input@.take(it.index() as int).filter(keep),
            forall|c: &char| call_requires(predicate, (c,)),
            forall|c: &char, b: bool| call_ensures(predicate, (c,), b) ==> b == keep(*c),
    {
        proof {
            reveal(Seq::filter);
            assert(input@.take(it.index() + 1).drop_last() =~= input@.take(it.index() as int));
        }
        if predicate(&c) {
            push_char(&mut out, c);
        }
    }
    proof {
        assert(input@.take(input@.len() as int) =~= input@);
        lemma_filter_keeps(input@, keep);
    }
    out
}

/// The number of characters of an ASCII string.
pub(crate) fn ascii_len(s: &str) -> (n: usize)
    requires
        s.is_ascii(),
    ensures
        n == s@.len(),
{
    broadcast use vstd::string::is_ascii_spec_bytes;

    s.as_bytes().len()
}

/// Whether a string holds ASCII decimal digits only.
pub(crate) fn all_ascii_digits(s: &str) -> (r: bool)
    ensures
        r == all_chars(s@, digit_chars()),
{
    let mut r = true;
    for c in it: s.chars()
        invariant
            it.seq() == s@,
            r == all_chars(s@.take(it.index() as int), digit_chars()),
    {
        proof {
            let k = it.index() as int;
            assert(s@.take(k + 1)[k] == c);
            assert forall|i: int| 0 <= i < k implies s@.take(k)[i] == s@.take(k + 1)[i] by {}
            if all_chars(s@.take(k + 1), digit_chars()) {
                assert forall|i: int| 0 <= i < k implies (digit_chars())(
                    #[trigger] s@.take(k)[i],
                ) by {
                    assert(s@.take(k)[i] == s@.take(k + 1)[i]);
                }
            }
        }
        r = r && ascii_digit(c);
    }
    proof {
        assert(s@.take(s@.len() as int) =~= s@);
    }
    r
}

/// What `last_index_of` finds: nothing exactly when `c` does not occur,
/// else the position that holds the last `c`.
pub proof fn lemma_last_index_of(s: Seq<char>, c: char)
    ensures
        match last_index_of(s, c) {
            Some(i) => is_last_index_of(s, c, i),
            None => forall|j: int| 0 <= j < s.len() ==> s[j] != c,
        },
    decreases s.len(),
{
    if s.len() > 0 && s.last() != c {
        lemma_last_index_of(s.drop_last(), c);
        assert forall|j: int| 0 <= j < s.len() - 1 implies s[j] == s.drop_last()[j] by {}
    }
}

/// The position of the last `c` is what `last_index_of` finds.
pub proof fn lemma_last_index_found(s: Seq<char>, c: char, i: int)
    requires
        is_last_index_of(s, c, i),
    ensures
        last_index_of(s, c) == Some(i),
{
    lemma_last_index_of(s, c);
}

/// Every character that a filter lets through satisfies its predicate, and
/// the result is no longer than the input.
pub proof fn lemma_filter_keeps(s: Seq<char>, keep: spec_fn(char) -> bool)
    ensures
        s.filter(keep).len() <= s.len(),
        all_chars(s.filter(keep), keep),
{
    s.lemma_filter_len(keep);
    assert forall|i: int| 0 <= i < s.filter(keep).len() implies keep(
        #[trigger] s.filter(keep)[i],
    ) by {
        s.lemma_filter_pred(keep, i);
    }
}

/// A sequence whose characters all satisfy the predicate passes the filter
/// unchanged.
pub proof fn lemma_filter_fixed(s: Seq<char>, keep: spec_fn(char) -> bool)
    requires
        all_chars(s, keep),
    ensures
        s.filter(keep) == s,
    decreases s.len(),
{
    reveal(Seq::filter);
    if s.len() > 0 {
        lemma_filter_fixed(s.drop_last(), keep);
        assert(s.drop_last().push(s.last()) =~= s);
    }
}

/// Characters that the predicate refuses, put in anywhere, leave the
/// filter's result unchanged.
pub proof fn lemma_filter_splice(
    s: Seq<char>,
    at: int,
    junk: Seq<char>,
    keep: spec_fn(char) -> bool,
)
    requires
        0 <= at <= s.len(),
        forall|i: int| 0 <= i < junk.len() ==> !keep(#[trigger] junk[i]),
    ensures
        (s.take(at) + junk + s.skip(at)).filter(keep) == s.filter(keep),
{
    lemma_filter_none(junk, keep);
    Seq::filter_distributes_over_add(s.take(at), junk, keep);
    Seq::filter_distributes_over_add(s.take(at) + junk, s.skip(at), keep);
    Seq::filter_distributes_over_add(s.take(at), s.skip(at), keep);
    assert(s.take(at) + s.skip(at) =~= s);
    assert(s.take(at).filter(keep) + Seq::<char>::empty() =~= s.take(at).filter(keep));
}

/// A sequence none of whose characters satisfies the predicate is filtered
/// to nothing.
pub proof fn lemma_filter_none(s: Seq<char>, keep: spec_fn(char) -> bool)
    requires
        forall|i: int| 0 <= i < s.len() ==> !keep(#[trigger] s[i]),
    ensures
        s.filter(keep) == Seq::<char>::empty(),
    decreases s.len(),
{
    reveal(Seq::filter);
    if s.len() > 0 {
        lemma_filter_none(s.drop_last(), keep);
    }
}

} // verus!
