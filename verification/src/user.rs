use crate::chars::{
    all_ascii_digits, all_chars, ascii_alphabetic, ascii_len, clamp, digit_chars, email_char,
    email_chars, filter_chars, handle_char, handle_chars, is_ascii_alphabetic, is_email_char,
    is_handle_char, is_last_index_of, is_name_char, is_password_char, last_index_of,
    lemma_filter_fixed, lemma_filter_keeps, lemma_filter_splice, lemma_last_index_found,
    lemma_last_index_of, name_char, name_chars, password_char, password_chars,
};
use vstd::prelude::*;

verus! {

pub const NAME_LEN_MIN: usize = 3;
pub const NAME_LEN_MAX: usize = 14;

/// A display name as the game accepts it.
#[derive(PartialEq, Debug)]
pub struct Name(String);

/// Why an input was refused as a display name.
#[derive(PartialEq, Eq, Clone, Copy, Debug)]
pub enum NameError {
    Empty,
    TooShort,
}

/// What a display name is: between three and fourteen characters, each an
/// ASCII letter or digit.
pub open spec fn is_name(s: Seq<char>) -> bool {
    &&& NAME_LEN_MIN <= s.len() <= NAME_LEN_MAX
    &&& all_chars(s, name_chars())
}

/// The outcome of reading a display name from `input`.
pub open spec fn name_outcome(input: Seq<char>) -> Result<Seq<char>, NameError> {
    let s = input.filter(name_chars());
    if s.len() == 0 {
        Err(NameError::Empty)
    } else if s.len() < NAME_LEN_MIN {
        Err(NameError::TooShort)
    } else {
        Ok(clamp(s, NAME_LEN_MAX as nat))
    }
}

/// Every accepted name is a name: it has at most fourteen characters, at
/// least three, and only letters and digits.
pub proof fn lemma_name_bounds(input: Seq<char>)
    ensures
        name_outcome(input) matches Ok(v) ==> is_name(v),
{
    lemma_filter_keeps(input, name_chars());
}

/// An accepted name, read again, is accepted as it is.
pub proof fn lemma_name_idempotent(input: Seq<char>)
    ensures
        name_outcome(input) matches Ok(v) ==> name_outcome(v) == Ok::<Seq<char>, NameError>(v),
{
    if let Ok(v) = name_outcome(input) {
        lemma_name_bounds(input);
        lemma_filter_fixed(v, name_chars());
    }
}

/// Characters that a name may not hold, put into the input anywhere, do not
/// change the outcome.
pub proof fn lemma_name_ignores_refused(input: Seq<char>, at: int, junk: Seq<char>)
    requires
        0 <= at <= input.len(),
        forall|i: int| 0 <= i < junk.len() ==> !is_name_char(#[trigger] junk[i]),
    ensures
        name_outcome(input.take(at) + junk + input.skip(at)) == name_outcome(input),
{
    lemma_filter_splice(input, at, junk, name_chars());
}

impl View for Name {
    type V = Seq<char>;

    closed spec fn view(&self) -> Seq<char> {
        self.0@
    }
}

impl Name {
    #[verifier::type_invariant]
    closed spec fn inv(self) -> bool {
        is_name(self.0@)
    }

    /// Reads a display name: drops what a name may not hold, refuses what
    /// is then empty or shorter than three characters, and keeps the first
    /// fourteen characters of what is left.
    pub fn parse(name: &str) -> (r: Result<Self, NameError>)
        ensures
            match r {
                Ok(v) => name_outcome(name@) == Ok::<Seq<char>, NameError>(v@) && is_name(v@),
                Err(e) => name_outcome(name@) == Err::<Seq<char>, NameError>(e),
            },
    {
        let sanitized = filter_chars(name, name_char, Ghost(name_chars()));
        if sanitized.as_str().is_empty() {
            return Err(NameError::Empty);
        }
        let sanitized_len: usize = ascii_len(sanitized.as_str());
        if sanitized_len < NAME_LEN_MIN {
            return Err(NameError::TooShort);
        }
        if sanitized_len > NAME_LEN_MAX {
            return Ok(Self(sanitized.as_str().substring_ascii(0, NAME_LEN_MAX).to_owned()));
        }
        Ok(Self(sanitized))
    }

    /// The characters of the value.
    pub fn as_str(&self) -> (s: &str)
        ensures
            s@ == self@,
            is_name(s@),
    {
        proof {
            use_type_invariant(self);
        }
        self.0.as_str()
    }
}

pub const PASSWORD_LEN_MIN: usize = 6;
pub const PASSWORD_LEN_MAX: usize = 19;

/// A password as the game accepts it, in plain text.
#[derive(PartialEq, Debug)]
pub struct Password(String);

/// Why an input was refused as a password.
#[derive(PartialEq, Eq, Clone, Copy, Debug)]
pub enum PasswordError {
    Empty,
    TooShort,
}

/// What a password is: between six and nineteen characters, each an ASCII
/// letter or digit, `-` or `_`.
pub open spec fn is_password(s: Seq<char>) -> bool {
    &&& PASSWORD_LEN_MIN <= s.len() <= PASSWORD_LEN_MAX
    &&& all_chars(s, password_chars())
}

/// The outcome of reading a password from `input`.
pub open spec fn password_outcome(input: Seq<char>) -> Result<Seq<char>, PasswordError> {
    let s = input.filter(password_chars());
    if s.len() == 0 {
        Err(PasswordError::Empty)
    } else if s.len() < PASSWORD_LEN_MIN {
        Err(PasswordError::TooShort)
    } else {
        Ok(clamp(s, PASSWORD_LEN_MAX as nat))
    }
}

/// Every accepted password is a password: it has at most nineteen
/// characters, at least six, and only letters, digits, `-` and `_`.
pub proof fn lemma_password_bounds(input: Seq<char>)
    ensures
        password_outcome(input) matches Ok(v) ==> is_password(v),
{
    lemma_filter_keeps(input, password_chars());
}

/// An accepted password, read again, is accepted as it is.
pub proof fn lemma_password_idempotent(input: Seq<char>)
    ensures
        password_outcome(input) matches Ok(v) ==> password_outcome(v) == Ok::<
            Seq<char>,
            PasswordError,
        >(v),
{
    if let Ok(v) = password_outcome(input) {
        lemma_password_bounds(input);
        lemma_filter_fixed(v, password_chars());
    }
}

/// Characters that a password may not hold, put into the input anywhere, do
/// not change the outcome.
pub proof fn lemma_password_ignores_refused(input: Seq<char>, at: int, junk: Seq<char>)
    requires
        0 <= at <= input.len(),
        forall|i: int| 0 <= i < junk.len() ==> !is_password_char(#[trigger] junk[i]),
    ensures
        password_outcome(input.take(at) + junk + input.skip(at)) == password_outcome(input),
{
    lemma_filter_splice(input, at, junk, password_chars());
}

impl View for Password {
    type V = Seq<char>;

    closed spec fn view(&self) -> Seq<char> {
        self.0@
    }
}

impl Password {
    #[verifier::type_invariant]
    closed spec fn inv(self) -> bool {
        is_password(self.0@)
    }

    /// Reads a password: drops what a password may not hold, refuses what
    /// is then empty or shorter than six characters, and keeps the first
    /// nineteen characters of what is left.
    pub fn parse(password: &str) -> (r: Result<Self, PasswordError>)
        ensures
            match r {
                Ok(v) => password_outcome(password@) == Ok::<Seq<char>, PasswordError>(v@)
                    && is_password(v@),
                Err(e) => password_outcome(password@) == Err::<Seq<char>, PasswordError>(e),
            },
    {
        let sanitized = filter_chars(password, password_char, Ghost(password_chars()));
        if sanitized.as_str().is_empty() {
            return Err(PasswordError::Empty);
        }
        let sanitized_len: usize = ascii_len(sanitized.as_str());
        if sanitized_len < PASSWORD_LEN_MIN {
            return Err(PasswordError::TooShort);
        }
        if sanitized_len > PASSWORD_LEN_MAX {
            return Ok(
                Self(sanitized.as_str().substring_ascii(0, PASSWORD_LEN_MAX).to_owned()),
            );
        }
        Ok(Self(sanitized))
    }

    /// The characters of the value.
    pub fn as_str(&self) -> (s: &str)
        ensures
            s@ == self@,
            is_password(s@),
    {
        proof {
            use_type_invariant(self);
        }
        self.0.as_str()
    }
}

pub const EMAIL_LEN_MIN: usize = 4;
pub const EMAIL_LEN_MAX: usize = 49;

/// An email address as the game accepts it.
#[derive(PartialEq, Debug)]
pub struct Email(String);

/// Why an input was refused as an email address.
#[derive(PartialEq, Eq, Clone, Copy, Debug)]
pub enum EmailError {
    Empty,
    TooShort,
    Malformed,
}

/// What holds of every email address: between four and forty-nine
/// characters, each an ASCII letter or digit, `-`, `_`, `@` or `.`, the
/// first of them a letter.
pub open spec fn is_email(s: Seq<char>) -> bool {
    &&& EMAIL_LEN_MIN <= s.len() <= EMAIL_LEN_MAX
    &&& all_chars(s, email_chars())
    &&& is_ascii_alphabetic(s[0])
}

/// Whether `s` has the shape of an address: its last `@` is not its first
/// character, a `.` follows that `@`, the last `.` is not the final
/// character, the part before the last `@` is not made of digits alone, and
/// the first character is a letter.
pub open spec fn email_well_formed(s: Seq<char>) -> bool {
    match last_index_of(s, '@') {
        Some(at) => at > 0 && match last_index_of(s.skip(at), '.') {
            Some(dot) => {
                &&& at + dot + 1 != s.len()
                &&& !all_chars(s.take(at), digit_chars())
                &&& is_ascii_alphabetic(s[0])
            },
            None => false,
        },
        None => false,
    }
}

/// The outcome of reading an email address from `input`.
pub open spec fn email_outcome(input: Seq<char>) -> Result<Seq<char>, EmailError> {
    let s = input.filter(email_chars());
    if s.len() == 0 {
        Err(EmailError::Empty)
    } else if !email_well_formed(s) {
        Err(EmailError::Malformed)
    } else if s.len() < EMAIL_LEN_MIN {
        Err(EmailError::TooShort)
    } else {
        Ok(clamp(s, EMAIL_LEN_MAX as nat))
    }
}

/// The shape of an address, said at once: the first character is a letter,
/// and the last `@` stands after it and before the last `.`, which is not
/// the final character.
pub proof fn lemma_email_shape(s: Seq<char>)
    ensures
        email_well_formed(s) <==> {
            &&& s.len() > 0
            &&& is_ascii_alphabetic(s[0])
            &&& exists|at: int, dot: int|
                {
                    &&& 0 < at < dot < s.len() - 1
                    &&& #[trigger] is_last_index_of(s, '@', at)
                    &&& #[trigger] is_last_index_of(s, '.', dot)
                }
        },
{
    if email_well_formed(s) {
        let at = last_index_of(s, '@')->0;
        lemma_last_index_of(s, '@');
        let d = last_index_of(s.skip(at), '.')->0;
        lemma_last_index_of(s.skip(at), '.');
        assert(s.skip(at)[0] == '@');
        let dot = at + d;
        assert(s.skip(at)[d] == s[dot]);
        assert forall|j: int| dot < j < s.len() implies s[j] != '.' by {
            assert(s.skip(at)[j - at] == s[j]);
        }
        assert(is_last_index_of(s, '@', at) && is_last_index_of(s, '.', dot));
    }
    if s.len() > 0 && is_ascii_alphabetic(s[0]) && exists|at: int, dot: int|
        {
            &&& 0 < at < dot < s.len() - 1
            &&& #[trigger] is_last_index_of(s, '@', at)
            &&& #[trigger] is_last_index_of(s, '.', dot)
        } {
        let (at, dot) = choose|at: int, dot: int|
            {
                &&& 0 < at < dot < s.len() - 1
                &&& #[trigger] is_last_index_of(s, '@', at)
                &&& #[trigger] is_last_index_of(s, '.', dot)
            };
        lemma_last_index_found(s, '@', at);
        assert(is_last_index_of(s.skip(at), '.', dot - at)) by {
            assert(s.skip(at)[dot - at] == s[dot]);
            assert forall|j: int| dot - at < j < s.skip(at).len() implies s.skip(at)[j]
                != '.' by {
                assert(s.skip(at)[j] == s[j + at]);
            }
        }
        lemma_last_index_found(s.skip(at), '.', dot - at);
        assert(s.take(at)[0] == s[0]);
        assert(!(digit_chars())(s.take(at)[0]));
    }
}

/// An address of the right shape has at least four characters: one before
/// the last `@`, that `@`, a `.` after it, and one after the `.`.
pub proof fn lemma_well_formed_len(s: Seq<char>)
    requires
        email_well_formed(s),
    ensures
        s.len() >= EMAIL_LEN_MIN,
{
    let at = last_index_of(s, '@')->0;
    lemma_last_index_of(s, '@');
    let dot = last_index_of(s.skip(at), '.')->0;
    lemma_last_index_of(s.skip(at), '.');
    assert(s.skip(at)[0] == '@');
}

/// No input is refused as too short: what is long enough to have the shape
/// of an address is long enough.
pub proof fn lemma_email_never_too_short(input: Seq<char>)
    ensures
        email_outcome(input) != Err::<Seq<char>, EmailError>(EmailError::TooShort),
{
    let s = input.filter(email_chars());
    if email_well_formed(s) {
        lemma_well_formed_len(s);
    }
}

/// Every accepted address has at most forty-nine characters, at least four,
/// only characters that an address may hold, and a letter first.
pub proof fn lemma_email_bounds(input: Seq<char>)
    ensures
        email_outcome(input) matches Ok(v) ==> is_email(v),
{
    lemma_filter_keeps(input, email_chars());
}

/// An accepted address, read again, is accepted as it is, where it was not
/// cut or what is left of it still has the shape of an address.
pub proof fn lemma_email_idempotent(input: Seq<char>)
    requires
        input.filter(email_chars()).len() <= EMAIL_LEN_MAX || email_well_formed(
            input.filter(email_chars()).take(EMAIL_LEN_MAX as int),
        ),
    ensures
        email_outcome(input) matches Ok(v) ==> email_outcome(v) == Ok::<Seq<char>, EmailError>(v),
{
    if let Ok(v) = email_outcome(input) {
        lemma_email_bounds(input);
        lemma_filter_fixed(v, email_chars());
    }
}

/// Characters that an address may not hold, put into the input anywhere, do
/// not change the outcome.
pub proof fn lemma_email_ignores_refused(input: Seq<char>, at: int, junk: Seq<char>)
    requires
        0 <= at <= input.len(),
        forall|i: int| 0 <= i < junk.len() ==> !is_email_char(#[trigger] junk[i]),
    ensures
        email_outcome(input.take(at) + junk + input.skip(at)) == email_outcome(input),
{
    lemma_filter_splice(input, at, junk, email_chars());
}

impl View for Email {
    type V = Seq<char>;

    closed spec fn view(&self) -> Seq<char> {
        self.0@
    }
}

impl Email {
    #[verifier::type_invariant]
    closed spec fn inv(self) -> bool {
        is_email(self.0@)
    }

    /// Reads an email address: drops what an address may not hold, refuses
    /// what is then empty or has not the shape of an address, and keeps the
    /// first forty-nine characters of what is left.
    pub fn parse(email: &str) -> (r: Result<Self, EmailError>)
        ensures
            match r {
                Ok(v) => email_outcome(email@) == Ok::<Seq<char>, EmailError>(v@) && is_email(
                    v@,
                ),
                Err(e) => email_outcome(email@) == Err::<Seq<char>, EmailError>(e),
            },
    {
        let sanitized = filter_chars(email, email_char, Ghost(email_chars()));
        if sanitized.as_str().is_empty() {
            return Err(EmailError::Empty);
        }
        let sanitized_len: usize = ascii_len(sanitized.as_str());

        let at: usize = match Self::find_last(sanitized.as_str(), '@') {
            Some(index) => index,
            None => {
                return Err(EmailError::Malformed);
            },
        };
        proof {
            lemma_last_index_of(sanitized@, '@');
        }
        if at == 0 {
            return Err(EmailError::Malformed);
        }
        let tail = sanitized.as_str().substring_ascii(at, sanitized_len);
        assert(tail@ == sanitized@.skip(at as int));
        let dot: usize = match Self::find_last(tail, '.') {
            Some(index) => {
                proof {
                    lemma_last_index_of(tail@, '.');
                }
                index + at
            },
            None => {
                return Err(EmailError::Malformed);
            },
        };
        if dot + 1 == sanitized_len {
            return Err(EmailError::Malformed);
        }
        if all_ascii_digits(sanitized.as_str().substring_ascii(0, at)) {
            return Err(EmailError::Malformed);
        }
        let first_char = sanitized.as_str().get_char(0);
        if !ascii_alphabetic(first_char) {
            return Err(EmailError::Malformed);
        }
        if sanitized_len < EMAIL_LEN_MIN {
            return Err(EmailError::TooShort);
        }
        if sanitized_len > EMAIL_LEN_MAX {
            return Ok(Self(sanitized.as_str().substring_ascii(0, EMAIL_LEN_MAX).to_owned()));
        }
        Ok(Self(sanitized))
    }

    /// The position of the last `ch` in an ASCII string.
    fn find_last(input: &str, ch: char) -> (r: Option<usize>)
        requires
            input.is_ascii(),
        ensures
            match r {
                Some(i) => last_index_of(input@, ch) == Some(i as int),
                None => last_index_of(input@, ch) is None,
            },
    {
        let len: usize = ascii_len(input);
        let mut found: Option<usize> = None;
        let mut index: usize = 0;
        for c in it: input.chars()
            invariant
                it.seq() == input@,
                len == input@.len(),
                index == it.index(),
                match found {
                    Some(i) => last_index_of(input@.take(index as int), ch) == Some(i as int),
                    None => last_index_of(input@.take(index as int), ch) is None,
                },
        {
            proof {
                assert(input@.take(index + 1).drop_last() =~= input@.take(index as int));
            }
            if c == ch {
                found = Some(index);
            }
            index += 1;
        }
        proof {
            assert(input@.take(input@.len() as int) =~= input@);
        }
        found
    }

    /// The characters of the value.
    pub fn as_str(&self) -> (s: &str)
        ensures
            s@ == self@,
            is_email(s@),
    {
        proof {
            use_type_invariant(self);
        }
        self.0.as_str()
    }
}

/// The handle read from `input`: the characters that a handle may hold,
/// or nothing where there is none of them.
pub open spec fn handle_of(input: Seq<char>) -> Option<Seq<char>> {
    let s = input.filter(handle_chars());
    if s.len() == 0 {
        None
    } else {
        Some(s)
    }
}

/// What a handle is: at least one character, each an ASCII letter or digit,
/// `-`, `_`, `,`, `'` or a space.
pub open spec fn is_handle(s: Seq<char>) -> bool {
    s.len() > 0 && all_chars(s, handle_chars())
}

/// A handle, read again, is the same handle.
pub proof fn lemma_handle_idempotent(input: Seq<char>)
    ensures
        handle_of(input) matches Some(v) ==> is_handle(v) && handle_of(v) == Some(v),
{
    if let Some(v) = handle_of(input) {
        lemma_filter_keeps(input, handle_chars());
        lemma_filter_fixed(v, handle_chars());
    }
}

/// Characters that a handle may not hold, put into the input anywhere, do
/// not change the handle.
pub proof fn lemma_handle_ignores_refused(input: Seq<char>, at: int, junk: Seq<char>)
    requires
        0 <= at <= input.len(),
        forall|i: int| 0 <= i < junk.len() ==> !is_handle_char(#[trigger] junk[i]),
    ensures
        handle_of(input.take(at) + junk + input.skip(at)) == handle_of(input),
{
    lemma_filter_splice(input, at, junk, handle_chars());
}

/// The characters of an optional string.
pub open spec fn opt_view(s: Option<String>) -> Option<Seq<char>> {
    match s {
        Some(s) => Some(s@),
        None => None,
    }
}

/// The three handles of a `SocialMediaHandles`, as character sequences.
pub struct Handles {
    pub youtube: Option<Seq<char>>,
    pub twitter: Option<Seq<char>>,
    pub twitch: Option<Seq<char>>,
}

impl Handles {
    /// Whether each handle that is present is one.
    pub open spec fn valid(self) -> bool {
        &&& self.youtube matches Some(s) ==> is_handle(s)
        &&& self.twitter matches Some(s) ==> is_handle(s)
        &&& self.twitch matches Some(s) ==> is_handle(s)
    }
}

/// A user's handles on three platforms, each present or absent.
pub struct SocialMediaHandles {
    youtube: Option<String>,
    // Renamed to X, but the game still displays it as Twitter.
    twitter: Option<String>,
    twitch: Option<String>,
}

impl View for SocialMediaHandles {
    type V = Handles;

    closed spec fn view(&self) -> Handles {
        Handles {
            youtube: opt_view(self.youtube),
            twitter: opt_view(self.twitter),
            twitch: opt_view(self.twitch),
        }
    }
}

impl SocialMediaHandles {
    #[verifier::type_invariant]
    closed spec fn inv(self) -> bool {
        self@.valid()
    }

    /// The handles read from the three inputs.
    pub fn new(youtube: &str, twitter: &str, twitch: &str) -> (r: Self)
        ensures
            r@ == (Handles {
                youtube: handle_of(youtube@),
                twitter: handle_of(twitter@),
                twitch: handle_of(twitch@),
            }),
            r@.valid(),
    {
        Self {
            youtube: Self::sanitize_social_media_handle(youtube),
            twitter: Self::sanitize_social_media_handle(twitter),
            twitch: Self::sanitize_social_media_handle(twitch),
        }
    }

    /// A copy of the YouTube handle.
    pub fn youtube(&self) -> (r: Option<String>)
        ensures
            opt_view(r) == self@.youtube,
            self@.valid(),
    {
        proof {
            use_type_invariant(self);
        }
        Self::copy_of(&self.youtube)
    }

    /// Replaces the YouTube handle by the one read from `youtube`, and leaves the
    /// other two.
    pub fn set_youtube(&mut self, youtube: &str) -> (r: &mut Self)
        ensures
            r@ == (Handles { youtube: handle_of(youtube@), ..old(self)@ }),
            *final(self) == *final(r),
    {
        proof {
            use_type_invariant(&*self);
        }
        self.youtube = Self::sanitize_social_media_handle(youtube);
        self
    }

    /// A copy of the Twitter handle.
    pub fn twitter(&self) -> (r: Option<String>)
        ensures
            opt_view(r) == self@.twitter,
            self@.valid(),
    {
        proof {
            use_type_invariant(self);
        }
        Self::copy_of(&self.twitter)
    }

    /// Replaces the Twitter handle by the one read from `twitter`, and leaves the
    /// other two.
    pub fn set_twitter(&mut self, twitter: &str) -> (r: &mut Self)
        ensures
            r@ == (Handles { twitter: handle_of(twitter@), ..old(self)@ }),
            *final(self) == *final(r),
    {
        proof {
            use_type_invariant(&*self);
        }
        self.twitter = Self::sanitize_social_media_handle(twitter);
        self
    }

    /// A copy of the Twitch handle.
    pub fn twitch(&self) -> (r: Option<String>)
        ensures
            opt_view(r) == self@.twitch,
            self@.valid(),
    {
        proof {
            use_type_invariant(self);
        }
        Self::copy_of(&self.twitch)
    }

    /// Replaces the Twitch handle by the one read from `twitch`, and leaves the
    /// other two.
    pub fn set_twitch(&mut self, twitch: &str) -> (r: &mut Self)
        ensures
            r@ == (Handles { twitch: handle_of(twitch@), ..old(self)@ }),
            *final(self) == *final(r),
    {
        proof {
            use_type_invariant(&*self);
        }
        self.twitch = Self::sanitize_social_media_handle(twitch);
        self
    }

    /// A copy of an optional string.
    fn copy_of(handle: &Option<String>) -> (r: Option<String>)
        ensures
            opt_view(r) == opt_view(*handle),
    {
        match handle {
            Some(s) => Some(s.clone()),
            None => None,
        }
    }

    /// The handle read from `handle`: what a handle may hold of it, or
    /// nothing.
    fn sanitize_social_media_handle(handle: &str) -> (r: Option<String>)
        ensures
            opt_view(r) == handle_of(handle@),
            r matches Some(s) ==> is_handle(s@),
    {
        let sanitized = filter_chars(handle, handle_char, Ghost(handle_chars()));
        if sanitized.as_str().is_empty() {
            None
        } else {
            Some(sanitized)
        }
    }
}

/// The cosmetic ids that a player has chosen.
pub struct IconSet {
    pub icon_id: u32,
    pub ship_id: u32,
    pub jetpack_id: u32,
    pub ball_id: u32,
    pub ufo_id: u32,
    pub wave_id: u32,
    pub robot_id: u32,
    pub spider_id: u32,
    pub swing_id: u32,
    pub glow_id: u32,
    pub death_effect_id: u32,
}

impl Default for IconSet {
    fn default() -> (r: Self)
        ensures
            r == (IconSet {
                icon_id: 0,
                ship_id: 0,
                jetpack_id: 0,
                ball_id: 0,
                ufo_id: 0,
                wave_id: 0,
                robot_id: 0,
                spider_id: 0,
                swing_id: 0,
                glow_id: 0,
                death_effect_id: 0,
            }),
    {
        IconSet {
            icon_id: 0,
            ship_id: 0,
            jetpack_id: 0,
            ball_id: 0,
            ufo_id: 0,
            wave_id: 0,
            robot_id: 0,
            spider_id: 0,
            swing_id: 0,
            glow_id: 0,
            death_effect_id: 0,
        }
    }
}

/// A player's counters.
pub struct Stats {
    pub stars: u32,
    pub moons: u32,
    pub coins: u32,
    pub user_coins: u32,
    pub diamonds: u32,
    pub demons: u32,
    pub creator_points: u32,
    pub orbs: u32,
}

impl Default for Stats {
    fn default() -> (r: Self)
        ensures
            r == (Stats {
                stars: 0,
                moons: 0,
                coins: 0,
                user_coins: 0,
                diamonds: 0,
                demons: 0,
                creator_points: 0,
                orbs: 0,
            }),
    {
        Stats {
            stars: 0,
            moons: 0,
            coins: 0,
            user_coins: 0,
            diamonds: 0,
            demons: 0,
            creator_points: 0,
            orbs: 0,
        }
    }
}

/// From what a player is banned.
pub enum Ban {
    NotBanned,
    LeaderboardBan,
    CreatorBan,
    LeaderboardAndCreatorBan,
}

impl Default for Ban {
    fn default() -> (r: Self)
        ensures
            r == Ban::NotBanned,
    {
        Ban::NotBanned
    }
}

impl Ban {
    /// The number under which a ban state is stored.
    pub open spec fn code(self) -> u8 {
        match self {
            Ban::NotBanned => 0,
            Ban::LeaderboardBan => 1,
            Ban::CreatorBan => 2,
            Ban::LeaderboardAndCreatorBan => 3,
        }
    }

    /// The number under which this ban state is stored.
    pub fn discriminant(&self) -> (r: u8)
        ensures
            r == self.code(),
            r <= 3,
    {
        match self {
            Ban::NotBanned => 0,
            Ban::LeaderboardBan => 1,
            Ban::CreatorBan => 2,
            Ban::LeaderboardAndCreatorBan => 3,
        }
    }

    /// The ban state stored under `code`, if there is one.
    pub fn from_discriminant(code: u8) -> (r: Option<Self>)
        ensures
            match r {
                Some(ban) => ban.code() == code,
                None => code > 3,
            },
    {
        match code {
            0 => Some(Ban::NotBanned),
            1 => Some(Ban::LeaderboardBan),
            2 => Some(Ban::CreatorBan),
            3 => Some(Ban::LeaderboardAndCreatorBan),
            _ => None,
        }
    }
}

/// `std::time::Instant`, which is carried through unread.
#[verifier::external_type_specification]
#[verifier::external_body]
pub struct ExInstant(std::time::Instant);

/// A registered user.
pub struct User {
    pub id: u64,
    pub name: Name,
    pub email: Email,
    pub social_media_handles: SocialMediaHandles,
    pub created_at: std::time::Instant,
}

impl User {
    /// A user made of the given parts.
    pub fn new(
        id: u64,
        name: Name,
        email: Email,
        social_media_handles: SocialMediaHandles,
        created_at: std::time::Instant,
    ) -> (r: Self)
        ensures
            r == (User { id, name, email, social_media_handles, created_at }),
    {
        Self { id, name, email, social_media_handles, created_at }
    }
}

} // verus!
