//! Discord sign-in: the one-time state codes of pending sign-ins, and the
//! random identifiers handed to new users.
use vstd::prelude::*;
use vstd::string::StringExecFns;
use crate::models::UserId;

verus! {

#[verifier::external_type_specification]
#[verifier::external_body]
#[verifier::reject_recursive_types(K)]
#[verifier::reject_recursive_types(S)]
pub struct ExDashSet<K, S>(dashmap::DashSet<K, S>);

/// Length of the random identifier given to a new user.
pub const USER_ID_LENGTH: usize = 24;

/// Length of the state code of a sign-in.
pub const STATE_CODE_LENGTH: usize = 32;

/// How many state codes a sign-in draws before it gives up.
pub const START_ATTEMPTS: usize = 16;

/// Size of the alphabet of user ids: `a-z`, `A-Z`, `0-9`.
pub const USER_ID_ALPHABET_SIZE: usize = 62;

/// Size of the alphabet of state codes: `a-z`, `A-Z`.
pub const STATE_CODE_ALPHABET_SIZE: usize = 52;

/// The `i`-th character of `a-z`, then `A-Z`, then `0-9`.
pub open spec fn alphabet_char(i: int) -> char {
    if i < 26 {
        (97 + i) as char
    } else if i < 52 {
        (65 + i - 26) as char
    } else {
        (48 + i - 52) as char
    }
}

/// The characters that a sequence of alphabet indices spells.
pub open spec fn spelled(indices: Seq<usize>) -> Seq<char> {
    indices.map_values(|i: usize| alphabet_char(i as int))
}

/// The random state code of a pending sign-in.
#[derive(Clone, Hash, PartialEq, Eq)]
pub struct StateCode(String);

impl View for StateCode {
    type V = Seq<char>;

    closed spec fn view(&self) -> Seq<char> {
        self.0@
    }
}

impl StateCode {
    pub fn get(&self) -> (r: &str)
        ensures
            r@ == self@,
    {
        self.0.as_str()
    }
}

/// The codes a set of pending sign-ins holds.
pub uninterp spec fn pending_codes(s: dashmap::DashSet<StateCode>) -> Set<Seq<char>>;

/// Relies on dashmap::DashSet::new: the set starts empty.
#[verifier::external_body]
fn code_set_new() -> (r: dashmap::DashSet<StateCode>)
    ensures
        pending_codes(r) == Set::<Seq<char>>::empty(),
{
    dashmap::DashSet::new()
}

/// Relies on dashmap::DashSet::contains: membership under `StateCode`'s
/// derived `Eq`, which compares the code's text.
#[verifier::external_body]
fn code_set_contains(set: &dashmap::DashSet<StateCode>, code: &StateCode) -> (r: bool)
    ensures
        r == pending_codes(*set).contains(code@),
{
    set.contains(code)
}

/// Relies on dashmap::DashSet::insert: adds the code, and answers whether it
/// was absent.
#[verifier::external_body]
fn code_set_insert(set: &mut dashmap::DashSet<StateCode>, code: StateCode) -> (r: bool)
    ensures
        pending_codes(*final(set)) == pending_codes(*old(set)).insert(code@),
        r == !pending_codes(*old(set)).contains(code@),
{
    set.insert(code)
}

/// Relies on rand::Rng::gen_range over rand::thread_rng: a value in
/// `0..bound` (it panics on an empty range).
#[verifier::external_body]
fn random_below(bound: usize) -> (r: usize)
    requires
        bound > 0,
    ensures
        r < bound,
{
    rand::Rng::gen_range(&mut rand::thread_rng(), 0..bound)
}

/// Relies on String::push: appends one character.
#[verifier::external_body]
fn push_char(s: &mut String, c: char)
    ensures
        final(s)@ == old(s)@.push(c),
{
    s.push(c)
}

fn char_at(i: usize) -> (c: char)
    requires
        i < USER_ID_ALPHABET_SIZE,
    ensures
        c == alphabet_char(i as int),
{
    if i < 26 {
        ((97 + i) as u8) as char
    } else if i < 52 {
        ((65 + i - 26) as u8) as char
    } else {
        ((48 + i - 52) as u8) as char
    }
}

/// Spells a sequence of alphabet indices.
pub fn spell(indices: &Vec<usize>) -> (r: String)
    requires
        forall|k: int| 0 <= k < indices.len() ==> indices@[k] < USER_ID_ALPHABET_SIZE,
    ensures
        r@ == spelled(indices@),
{
    let mut r = String::new();
    let mut k: usize = 0;
    while k < indices.len()
        invariant
            k <= indices.len(),
            forall|j: int| 0 <= j < indices.len() ==> indices@[j] < USER_ID_ALPHABET_SIZE,
            r@ == spelled(indices@.subrange(0, k as int)),
        decreases indices.len() - k,
    {
        let c = char_at(indices[k]);
        push_char(&mut r, c);
        proof {
            assert(spelled(indices@.subrange(0, k as int + 1)) =~= spelled(
                indices@.subrange(0, k as int),
            ).push(c));
        }
        k += 1;
    }
    proof {
        assert(indices@.subrange(0, indices@.len() as int) =~= indices@);
    }
    r
}

/// `size` random indices below `bound`.
fn random_indices(size: usize, bound: usize) -> (r: Vec<usize>)
    requires
        bound > 0,
    ensures
        r.len() == size,
        forall|k: int| 0 <= k < size ==> r@[k] < bound,
{
    let mut r: Vec<usize> = Vec::new();
    let mut k: usize = 0;
    while k < size
        invariant
            k <= size,
            bound > 0,
            r.len() == k,
            forall|j: int| 0 <= j < k ==> r@[j] < bound,
        decreases size - k,
    {
        r.push(random_below(bound));
        k += 1;
    }
    r
}

/// A random string of `size` characters of `a-z`, `A-Z` and, when
/// `alphabet_size` is the full 62, `0-9`.
fn random_string(size: usize, alphabet_size: usize) -> (r: String)
    requires
        0 < alphabet_size <= USER_ID_ALPHABET_SIZE,
    ensures
        exists|indices: Seq<usize>|
            indices.len() == size && (forall|k: int|
                0 <= k < size ==> #[trigger] indices[k] < alphabet_size) && r@ == spelled(indices),
{
    let indices = random_indices(size, alphabet_size);
    spell(&indices)
}

/// A random user id of `size` characters from `a-z`, `A-Z`, `0-9`.
pub fn generate_random_user_id(size: usize) -> (r: UserId)
    ensures
        exists|indices: Seq<usize>|
            indices.len() == size && (forall|k: int|
                0 <= k < size ==> #[trigger] indices[k] < USER_ID_ALPHABET_SIZE) && r.0@
                == spelled(indices),
{
    UserId(random_string(size, USER_ID_ALPHABET_SIZE))
}

/// A random state code of `size` letters.
pub fn generate_state_code(size: usize) -> (r: StateCode)
    ensures
        exists|indices: Seq<usize>|
            indices.len() == size && (forall|k: int|
                0 <= k < size ==> #[trigger] indices[k] < STATE_CODE_ALPHABET_SIZE) && r@ == spelled(
                indices,
            ),
{
    StateCode(random_string(size, STATE_CODE_ALPHABET_SIZE))
}

/// The state codes of the sign-ins that have been started.
pub struct PendingSignIns {
    codes: dashmap::DashSet<StateCode>,
}

impl View for PendingSignIns {
    type V = Set<Seq<char>>;

    closed spec fn view(&self) -> Set<Seq<char>> {
        pending_codes(self.codes)
    }
}

impl PendingSignIns {
    pub fn new() -> (r: PendingSignIns)
        ensures
            r@ == Set::<Seq<char>>::empty(),
    {
        PendingSignIns { codes: code_set_new() }
    }

    /// Whether `code` belongs to a started sign-in.
    pub fn is_pending(&self, code: &str) -> (r: bool)
        ensures
            r == self@.contains(code@),
    {
        let c = StateCode(code.to_owned());
        code_set_contains(&self.codes, &c)
    }

    /// Starts a sign-in: draws state codes until one is not pending yet,
    /// records it and returns it. Gives up with `None`, changing nothing,
    /// when `START_ATTEMPTS` draws in a row were all pending already.
    pub fn start_auth(&mut self) -> (r: Option<StateCode>)
        ensures
            r matches Some(c) ==> !old(self)@.contains(c@) && final(self)@ == old(self)@.insert(
                c@,
            ) && c@.len() == STATE_CODE_LENGTH,
            r matches Some(c) ==> exists|indices: Seq<usize>|
                indices.len() == STATE_CODE_LENGTH && (forall|k: int|
                    0 <= k < indices.len() ==> #[trigger] indices[k] < STATE_CODE_ALPHABET_SIZE)
                    && c@ == spelled(indices),
            r is None ==> final(self)@ == old(self)@,
            old(self)@ == Set::<Seq<char>>::empty() ==> r is Some,
    {
        let mut attempt: usize = 0;
        while attempt < START_ATTEMPTS
            invariant
                self@ == old(self)@,
                attempt > 0 ==> old(self)@ != Set::<Seq<char>>::empty(),
            decreases START_ATTEMPTS - attempt,
        {
            let code = generate_state_code(STATE_CODE_LENGTH);
            if !code_set_contains(&self.codes, &code) {
                let kept = StateCode(copy_string(&code.0));
                proof {
                    assert(kept@ == code@);
                }
                let _ = code_set_insert(&mut self.codes, code);
                return Some(kept);
            }
            attempt += 1;
        }
        None
    }
}

fn copy_string(s: &String) -> (r: String)
    ensures
        r@ == s@,
{
    s.clone()
}

/// The `application/x-www-form-urlencoded` serialization of name/value
/// pairs, in their order.
pub uninterp spec fn form_urlencoded_of(pairs: Seq<(Seq<char>, Seq<char>)>) -> Seq<char>;

pub open spec fn pair_views(pairs: Seq<(String, String)>) -> Seq<(Seq<char>, Seq<char>)> {
    pairs.map_values(|p: (String, String)| (p.0@, p.1@))
}

/// Relies on url::form_urlencoded::Serializer (extend_pairs, then finish):
/// the serialization depends on the pairs alone.
#[verifier::external_body]
fn form_urlencode(pairs: &Vec<(String, String)>) -> (r: String)
    ensures
        r@ == form_urlencoded_of(pair_views(pairs@)),
{
    url::form_urlencoded::Serializer::new(String::new()).extend_pairs(pairs.iter()).finish()
}

/// Path under the service's base address to which Discord redirects.
pub open spec fn redirect_path() -> Seq<char> {
    "/auth/providers/discord/redirect"@
}

/// The query of the Discord authorization address for a sign-in with state
/// code `state`, asking for the `identify` scope and a redirect to this
/// service at `webserver_base`.
pub fn authorize_query(info: &DiscordInfo, webserver_base: &str, state: &StateCode) -> (r: String)
    ensures
        r@ == form_urlencoded_of(
            seq![
                ("client_id"@, info.client_id()),
                ("response_type"@, "code"@),
                ("redirect_uri"@, webserver_base@ + redirect_path()),
                ("scope"@, "identify"@),
                ("state"@, state@),
            ],
        ),
{
    let redirect = webserver_base.to_owned().concat("/auth/providers/discord/redirect");
    let pairs = vec![
        ("client_id".to_owned(), info.client_id.clone()),
        ("response_type".to_owned(), "code".to_owned()),
        ("redirect_uri".to_owned(), redirect),
        ("scope".to_owned(), "identify".to_owned()),
        ("state".to_owned(), state.0.clone()),
    ];
    proof {
        assert(pair_views(pairs@) =~= seq![
            ("client_id"@, info.client_id()),
            ("response_type"@, "code"@),
            ("redirect_uri"@, webserver_base@ + redirect_path()),
            ("scope"@, "identify"@),
            ("state"@, state@),
        ]);
    }
    form_urlencode(&pairs)
}

/// The OAuth client credentials of this service at Discord.
pub struct DiscordInfo {
    client_id: String,
    client_secret: String,
}

impl DiscordInfo {
    pub fn new(client_id: String, client_secret: String) -> (r: DiscordInfo)
        ensures
            r.client_id() == client_id@,
            r.client_secret() == client_secret@,
    {
        DiscordInfo { client_id, client_secret }
    }

    pub closed spec fn client_id(&self) -> Seq<char> {
        self.client_id@
    }

    pub closed spec fn client_secret(&self) -> Seq<char> {
        self.client_secret@
    }

    pub fn get_client_id(&self) -> (r: &str)
        ensures
            r@ == self.client_id(),
    {
        self.client_id.as_str()
    }

    pub fn get_client_secret(&self) -> (r: &str)
        ensures
            r@ == self.client_secret(),
    {
        self.client_secret.as_str()
    }
}

} // verus!
