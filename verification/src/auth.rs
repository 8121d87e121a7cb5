//! Authentication: method selection and credentials.
use vstd::prelude::*;

use crate::protocol::{AuthMethods, UserPassRequest, UserPassView, USERPASS_VERSION};
#[allow(unused_imports)]
use crate::protocol;

verus! {

// ---------------------------------------------------------------- users
/// A username / password pair.
#[derive(Clone, Debug, PartialEq)]
pub struct User {
    pub username: String,
    password: String,
}

/// The mathematical content of a [`User`].
#[verifier::ext_equal]
pub struct UserView {
    pub username: Seq<char>,
    pub password: Seq<char>,
}

/// `String::from` of a `&str`, in std: claimed of it is that the new string
/// holds the characters of the slice.
pub assume_specification<'a>[ <String as From<&'a str>>::from ](s: &str) -> (owned: String)
    ensures
        owned@ == s@,
;

impl User {
    /// The name of this user.
    pub closed spec fn name(&self) -> String {
        self.username
    }

    /// The password of this user.
    pub closed spec fn secret(&self) -> String {
        self.password
    }

    /// Create a new user from a username / password pair
    pub fn new<U: Into<String>, P: Into<String>>(username: U, password: P) -> (user: User)
        ensures
            call_ensures(<U as Into<String>>::into, (username,), user.name()),
            call_ensures(<P as Into<String>>::into, (password,), user.secret()),
    {
        User { username: username.into(), password: password.into() }
    }
}

impl View for User {
    type V = UserView;

    open spec fn view(&self) -> UserView {
        UserView { username: self.name()@, password: self.secret()@ }
    }
}

/// The content of a list of users.
pub open spec fn user_views(users: Seq<User>) -> Seq<UserView> {
    users.map_values(|user: User| user@)
}

/// Compare two byte strings without an early exit on the first differing byte.
///
/// The length is still observable, but this avoids leaking *where* a username
/// or password first diverges through timing.
pub fn ct_eq(a: &[u8], b: &[u8]) -> (same: bool)
    ensures
        same == (a@ == b@),
{
    if a.len() != b.len() {
        return false;
    }
    let mut diff: u8 = 0;
    let mut i: usize = 0;
    while i < a.len()
        invariant
            0 <= i <= a@.len(),
            a@.len() == b@.len(),
            diff == 0 <==> (forall|j: int| 0 <= j < i ==> a@[j] == b@[j]),
        decreases a@.len() - i,
    {
        let x: u8 = a[i];
        let y: u8 = b[i];
        let before: u8 = diff;
        diff = before | (x ^ y);
        assert((before | (x ^ y)) == 0 <==> before == 0 && x == y) by (bit_vector);
        proof {
            if diff == 0 {
                assert forall|j: int| 0 <= j < i + 1 implies a@[j] == b@[j] by {}
            } else if before == 0 {
                assert(a@[i as int] != b@[i as int]);
            }
        }
        i = i + 1;
    }
    proof {
        if diff == 0 {
            assert(a@ =~= b@);
        }
    }
    diff == 0
}

/// Compare two strings by their bytes, without an early exit.
fn same_text(a: &str, b: &str) -> (same: bool)
    ensures
        same == (a@ == b@),
{
    proof {
        vstd::utf8::encode_utf8_decode_utf8(a@);
        vstd::utf8::encode_utf8_decode_utf8(b@);
    }
    ct_eq(a.as_bytes(), b.as_bytes())
}

/// Check if username + password pair are valid.
///
/// The comparison is written to avoid early exit on a mismatch and to
/// inspect every configured user, so the work done does not reveal which
/// entry (if any) matched or how far a wrong password got.
pub fn is_known(users: &Vec<User>, user: &User) -> (known: bool)
    ensures
        known == user_views(users@).contains(user@),
{
    let mut found = false;
    let mut i: usize = 0;
    while i < users.len()
        invariant
            0 <= i <= users@.len(),
            found == exists|j: int| 0 <= j < i && #[trigger] users@[j]@ == user@,
        decreases users@.len() - i,
    {
        let candidate = &users[i];
        let username_ok = same_text(user.username.as_str(), candidate.username.as_str());
        let password_ok = same_text(user.password.as_str(), candidate.password.as_str());
        let matches = username_ok && password_ok;
        let ghost before = found;
        proof {
            assert(matches == (users@[i as int]@ == user@)) by {
                if matches {
                    assert(users@[i as int]@ =~= user@);
                }
            }
            if before {
                let j = choose|j: int| 0 <= j < i && #[trigger] users@[j]@ == user@;
                assert(0 <= j < i + 1 && users@[j]@ == user@);
            }
        }
        found = found || matches;
        i = i + 1;
    }
    proof {
        let views = user_views(users@);
        if found {
            let j = choose|j: int| 0 <= j < users@.len() && #[trigger] users@[j]@ == user@;
            assert(views[j] == user@);
        }
        if views.contains(user@) {
            let j = choose|j: int| 0 <= j < views.len() && views[j] == user@;
            assert(users@[j]@ == user@);
        }
    }
    found
}

// ---------------------------------------------------------------- credentials
/// Whether the frame carries the UTF-8 encoding of the credentials of `user`.
pub open spec fn carries(frame: UserPassView, user: UserView) -> bool {
    frame.username == vstd::utf8::encode_utf8(user.username) && frame.password
        == vstd::utf8::encode_utf8(user.password)
}

/// Whether a USERPASS frame is granted access: it has the version of the
/// sub-negotiation and carries, byte for byte, the credentials of a user.
pub open spec fn granted(users: Seq<UserView>, frame: UserPassView) -> bool {
    frame.version == USERPASS_VERSION && exists|i: int|
        0 <= i < users.len() && carries(frame, #[trigger] users[i])
}

/// Decide on a USERPASS frame.
///
/// The credentials are compared as bytes, so bytes that are no text match no
/// user. As in [`is_known`], the comparison avoids an early exit on a mismatch
/// and inspects every configured user.
pub fn check_credentials(users: &Vec<User>, frame: &UserPassRequest<'_>) -> (access: bool)
    ensures
        access == granted(user_views(users@), frame@),
{
    let ghost views = user_views(users@);
    let mut found = false;
    let mut i: usize = 0;
    while i < users.len()
        invariant
            0 <= i <= users@.len(),
            views == user_views(users@),
            found == exists|j: int| 0 <= j < i && carries(frame@, #[trigger] views[j]),
        decreases users@.len() - i,
    {
        let candidate = &users[i];
        let username_ok = ct_eq(frame.username, candidate.username.as_str().as_bytes());
        let password_ok = ct_eq(frame.password, candidate.password.as_str().as_bytes());
        let matches = username_ok && password_ok;
        proof {
            assert(views[i as int] == candidate@);
            assert(matches == carries(frame@, views[i as int]));
            if found {
                let j = choose|j: int| 0 <= j < i && carries(frame@, #[trigger] views[j]);
                assert(0 <= j < i + 1 && carries(frame@, views[j]));
            }
        }
        found = found || matches;
        i = i + 1;
    }
    frame.version == USERPASS_VERSION && found
}

/// Credentials that are no text are never granted access, whoever the users
/// are.
pub proof fn law_undecodable_credentials_are_denied(users: Seq<UserView>, frame: UserPassView)
    requires
        !vstd::utf8::valid_utf8(frame.username) || !vstd::utf8::valid_utf8(frame.password),
    ensures
        !granted(users, frame),
{
    if granted(users, frame) {
        let i = choose|i: int| 0 <= i < users.len() && carries(frame, #[trigger] users[i]);
        vstd::utf8::encode_utf8_valid_utf8(users[i].username);
        vstd::utf8::encode_utf8_valid_utf8(users[i].password);
    }
}

/// Access depends on the text that the credentials spell, and on nothing else:
/// the frame that spells a name and a password is granted access exactly when
/// there is a user with that name and that password.
pub proof fn law_access_is_for_known_users(users: Seq<UserView>, user: UserView, version: u8)
    ensures
        ({
            let frame = UserPassView {
                version,
                username: vstd::utf8::encode_utf8(user.username),
                password: vstd::utf8::encode_utf8(user.password),
            };
            granted(users, frame) <==> version == USERPASS_VERSION && users.contains(user)
        }),
{
    let frame = UserPassView {
        version,
        username: vstd::utf8::encode_utf8(user.username),
        password: vstd::utf8::encode_utf8(user.password),
    };
    vstd::utf8::encode_utf8_decode_utf8(user.username);
    vstd::utf8::encode_utf8_decode_utf8(user.password);
    if granted(users, frame) {
        let i = choose|i: int| 0 <= i < users.len() && carries(frame, #[trigger] users[i]);
        vstd::utf8::encode_utf8_decode_utf8(users[i].username);
        vstd::utf8::encode_utf8_decode_utf8(users[i].password);
        assert(users[i] =~= user);
    }
    if users.contains(user) {
        let i = choose|i: int| 0 <= i < users.len() && users[i] == user;
        assert(carries(frame, users[i]));
    }
}

// ---------------------------------------------------------------- methods
/// Whether `bytes` holds `byte`.
pub fn holds_byte(bytes: &[u8], byte: u8) -> (found: bool)
    ensures
        found == bytes@.contains(byte),
{
    let mut i: usize = 0;
    while i < bytes.len()
        invariant
            0 <= i <= bytes@.len(),
            forall|j: int| 0 <= j < i ==> bytes@[j] != byte,
        decreases bytes@.len() - i,
    {
        if bytes[i] == byte {
            assert(bytes@[i as int] == byte);
            return true;
        }
        i = i + 1;
    }
    false
}

/// The offered methods that are allowed, in the order they were offered.
pub open spec fn common_methods(allowed: Seq<u8>, offered: Seq<u8>) -> Seq<u8> {
    offered.filter(|method: u8| allowed.contains(method))
}

/// The offered methods that are allowed, in the order they were offered.
pub fn available_methods(allowed: &[u8], offered: &[u8]) -> (methods: Vec<u8>)
    ensures
        methods@ == common_methods(allowed@, offered@),
{
    let ghost keep = |method: u8| allowed@.contains(method);
    let mut methods: Vec<u8> = Vec::new();
    let mut i: usize = 0;
    proof {
        reveal(Seq::filter);
        assert(offered@.take(0) =~= Seq::<u8>::empty());
    }
    while i < offered.len()
        invariant
            0 <= i <= offered@.len(),
            keep == |method: u8| allowed@.contains(method),
            methods@ == offered@.take(i as int).filter(keep),
        decreases offered@.len() - i,
    {
        let method: u8 = offered[i];
        proof {
            reveal(Seq::filter);
            let next = offered@.take(i + 1);
            assert(next.last() == method);
            assert(next.drop_last() =~= offered@.take(i as int));
        }
        if holds_byte(allowed, method) {
            methods.push(method);
        }
        i = i + 1;
    }
    assert(offered@.take(i as int) =~= offered@);
    methods
}

/// The method a server answers with: username and password where both sides
/// have it, else no authentication where both sides have it, else none.
pub open spec fn chosen_method(allowed: Seq<u8>, offered: Seq<u8>) -> AuthMethods {
    let both = |method: AuthMethods|
        allowed.contains(protocol::method_byte(method)) && offered.contains(
            protocol::method_byte(method),
        );
    if both(AuthMethods::UserPass) {
        AuthMethods::UserPass
    } else if both(AuthMethods::NoAuth) {
        AuthMethods::NoAuth
    } else {
        AuthMethods::NoMethods
    }
}

/// Choose the method to answer a greeting with.
pub fn choose_method(allowed: &[u8], offered: &[u8]) -> (method: AuthMethods)
    ensures
        method == chosen_method(allowed@, offered@),
{
    let methods = available_methods(allowed, offered);
    proof {
        lemma_filter_keeps(allowed@, offered@, protocol::method_byte(AuthMethods::UserPass));
        lemma_filter_keeps(allowed@, offered@, protocol::method_byte(AuthMethods::NoAuth));
    }
    if holds_byte(methods.as_slice(), AuthMethods::UserPass.code()) {
        AuthMethods::UserPass
    } else if holds_byte(methods.as_slice(), AuthMethods::NoAuth.code()) {
        AuthMethods::NoAuth
    } else {
        AuthMethods::NoMethods
    }
}

proof fn lemma_filter_from(source: Seq<u8>, keep: spec_fn(u8) -> bool, i: int)
    requires
        0 <= i < source.filter(keep).len(),
    ensures
        source.contains(source.filter(keep)[i]),
    decreases source.len(),
{
    reveal(Seq::filter);
    if source.len() > 0 {
        let shorter = source.drop_last();
        if i < shorter.filter(keep).len() {
            lemma_filter_from(shorter, keep, i);
            let j = choose|j: int|
                0 <= j < shorter.len() && shorter[j] == shorter.filter(keep)[i];
            assert(source[j] == source.filter(keep)[i]);
        } else {
            assert(source[source.len() - 1] == source.filter(keep)[i]);
        }
    }
}

proof fn lemma_filter_keeps(allowed: Seq<u8>, offered: Seq<u8>, method: u8)
    ensures
        common_methods(allowed, offered).contains(method) <==> allowed.contains(method)
            && offered.contains(method),
{
    broadcast use vstd::seq_lib::group_filter_ensures;

    let keep = |method: u8| allowed.contains(method);
    let kept = offered.filter(keep);
    if kept.contains(method) {
        let i = choose|i: int| 0 <= i < kept.len() && kept[i] == method;
        assert(keep(kept[i]));
        lemma_filter_from(offered, keep, i);
    }
    if allowed.contains(method) && offered.contains(method) {
        let i = choose|i: int| 0 <= i < offered.len() && offered[i] == method;
        assert(keep(offered[i]));
        assert(kept.contains(offered[i]));
    }
}

/// The chosen method is one that both sides have, if they have one at all:
/// username and password exactly when `0x02` is both allowed and offered, no
/// authentication exactly when `0x00` is and `0x02` is not, and no method
/// exactly when neither is.
pub proof fn law_chosen_method_is_common(allowed: Seq<u8>, offered: Seq<u8>)
    ensures
        ({
            let method = chosen_method(allowed, offered);
            let byte = protocol::method_byte(method);
            let userpass = allowed.contains(0x02) && offered.contains(0x02);
            let open = allowed.contains(0x00) && offered.contains(0x00);
            &&& method == AuthMethods::NoMethods || (allowed.contains(byte) && offered.contains(
                byte,
            ))
            &&& method == AuthMethods::UserPass <==> userpass
            &&& method == AuthMethods::NoAuth <==> open && !userpass
            &&& method == AuthMethods::NoMethods <==> !open && !userpass
            &&& byte == 0x02 <==> userpass
            &&& byte == 0x00 <==> open && !userpass
            &&& byte == 0xFF <==> !open && !userpass
        }),
{
}

/// Which method is chosen does not depend on the order in which methods are
/// offered, nor on how often.
pub proof fn law_offers_are_sets(allowed: Seq<u8>, offered: Seq<u8>, again: Seq<u8>)
    requires
        forall|method: u8| #[trigger] offered.contains(method) <==> again.contains(method),
    ensures
        chosen_method(allowed, offered) == chosen_method(allowed, again),
{
    assert(offered.contains(0x02) <==> again.contains(0x02));
    assert(offered.contains(0x00) <==> again.contains(0x00));
}

/// The common methods of an offer are those of its parts, one after the other;
/// a single method is common exactly when it is allowed.
pub proof fn law_common_methods_keep_the_order(
    allowed: Seq<u8>,
    first: Seq<u8>,
    second: Seq<u8>,
    method: u8,
)
    ensures
        common_methods(allowed, first + second) == common_methods(allowed, first) + common_methods(
            allowed,
            second,
        ),
        common_methods(allowed, seq![method]) == if allowed.contains(method) {
            seq![method]
        } else {
            seq![]
        },
        common_methods(allowed, seq![]) == Seq::<u8>::empty(),
{
    let keep = |m: u8| allowed.contains(m);
    Seq::filter_distributes_over_add(first, second, keep);
    reveal(Seq::filter);
    assert(seq![method].drop_last() =~= seq![]);
    assert(seq![].filter(keep) =~= Seq::<u8>::empty());
    assert(seq![method].filter(keep) =~= if allowed.contains(method) {
        seq![method]
    } else {
        seq![]
    });
}

/// The users of a list are those of the list, each in its place.
pub proof fn law_every_user_counts(users: Seq<User>, i: int)
    requires
        0 <= i < users.len(),
    ensures
        user_views(users).len() == users.len(),
        user_views(users)[i] == users[i]@,
        user_views(users)[i].username == users[i].name()@,
        user_views(users)[i].password == users[i].secret()@,
{
}

/// Access is for exactly one version of the sub-negotiation, and for the bytes
/// of a user: a frame gets it if and only if its version is `0x01` and some
/// user's name and password encode to its bytes.
pub proof fn law_access_is_by_bytes(users: Seq<UserView>, frame: UserPassView)
    ensures
        granted(users, frame) <==> frame.version == 0x01 && exists|i: int|
            0 <= i < users.len() && frame.username == vstd::utf8::encode_utf8(
                (#[trigger] users[i]).username,
            ) && frame.password == vstd::utf8::encode_utf8(users[i].password),
{
    if granted(users, frame) {
        let i = choose|i: int| 0 <= i < users.len() && carries(frame, #[trigger] users[i]);
        assert(frame.username == vstd::utf8::encode_utf8(users[i].username));
    }
    if frame.version == 0x01 && exists|i: int|
        0 <= i < users.len() && frame.username == vstd::utf8::encode_utf8(
            (#[trigger] users[i]).username,
        ) && frame.password == vstd::utf8::encode_utf8(users[i].password) {
        let i = choose|i: int|
            0 <= i < users.len() && frame.username == vstd::utf8::encode_utf8(
                (#[trigger] users[i]).username,
            ) && frame.password == vstd::utf8::encode_utf8(users[i].password);
        assert(carries(frame, users[i]));
    }
}

} // verus!
