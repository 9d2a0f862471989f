//! How a session authenticated, and the context class that it achieved by that.

use vstd::prelude::*;

use crate::step_up;
use crate::text;

verus! {

/// One way of authenticating.
#[derive(Debug, Clone, Copy, PartialEq, Eq, Structural)]
pub enum AuthMethod {
    /// A password.
    Password,
    /// A time-based one-time code.
    Totp,
    /// A recovery code, in place of the second factor.
    RecoveryCode,
    /// A passkey.
    Passkey,
    /// What was sent to an email address: a link, or a code.
    EmailOtp,
    /// A device that was trusted after a second factor. It stands in for one on a single
    /// request, and is never written to a session.
    TrustedDevice,
}

impl AuthMethod {
    /// How the method is written down.
    pub open spec fn spec_token(self) -> Seq<char> {
        match self {
            AuthMethod::Password => "pwd"@,
            AuthMethod::Totp => "totp"@,
            AuthMethod::RecoveryCode => "recovery_code"@,
            AuthMethod::Passkey => "passkey"@,
            AuthMethod::EmailOtp => "email_otp"@,
            AuthMethod::TrustedDevice => "trusted_device"@,
        }
    }

    /// How the method is written down.
    pub fn token(self) -> (r: &'static str)
        ensures
            r@ == self.spec_token(),
    {
        match self {
            AuthMethod::Password => "pwd",
            AuthMethod::Totp => "totp",
            AuthMethod::RecoveryCode => "recovery_code",
            AuthMethod::Passkey => "passkey",
            AuthMethod::EmailOtp => "email_otp",
            AuthMethod::TrustedDevice => "trusted_device",
        }
    }

    /// The place on the ladder of the class that the method achieves.
    pub open spec fn rung(self) -> int {
        match self {
            AuthMethod::Password => 0,
            AuthMethod::EmailOtp => 0,
            AuthMethod::TrustedDevice => 1,
            AuthMethod::Totp => 2,
            AuthMethod::RecoveryCode => 2,
            AuthMethod::Passkey => 3,
        }
    }

    /// The class that the method achieves.
    pub fn acr(self) -> (r: &'static str)
        ensures
            r@ == step_up::ladder()[self.rung()],
    {
        match self {
            AuthMethod::Password => step_up::ACR_PWD,
            AuthMethod::EmailOtp => step_up::ACR_PWD,
            AuthMethod::TrustedDevice => step_up::ACR_MFA_REMEMBERED,
            AuthMethod::Totp => step_up::ACR_MFA,
            AuthMethod::RecoveryCode => step_up::ACR_MFA,
            AuthMethod::Passkey => step_up::ACR_PHR,
        }
    }

    /// The method that a token stands for.
    pub open spec fn of_token(token: Seq<char>) -> Option<AuthMethod> {
        if token == "pwd"@ {
            Some(AuthMethod::Password)
        } else if token == "totp"@ {
            Some(AuthMethod::Totp)
        } else if token == "recovery_code"@ {
            Some(AuthMethod::RecoveryCode)
        } else if token == "passkey"@ {
            Some(AuthMethod::Passkey)
        } else if token == "email_otp"@ {
            Some(AuthMethod::EmailOtp)
        } else if token == "trusted_device"@ {
            Some(AuthMethod::TrustedDevice)
        } else {
            None
        }
    }

    /// The method that a token stands for.
    pub fn parse(token: &str) -> (r: Option<AuthMethod>)
        ensures
            r == AuthMethod::of_token(token@),
    {
        if text::same(token, "pwd") {
            Some(AuthMethod::Password)
        } else if text::same(token, "totp") {
            Some(AuthMethod::Totp)
        } else if text::same(token, "recovery_code") {
            Some(AuthMethod::RecoveryCode)
        } else if text::same(token, "passkey") {
            Some(AuthMethod::Passkey)
        } else if text::same(token, "email_otp") {
            Some(AuthMethod::EmailOtp)
        } else if text::same(token, "trusted_device") {
            Some(AuthMethod::TrustedDevice)
        } else {
            None
        }
    }
}

/// The methods that a list of tokens stands for; a token that stands for none is skipped.
pub open spec fn methods_of(tokens: Seq<Seq<char>>) -> Seq<AuthMethod>
    decreases tokens.len(),
{
    if tokens.len() == 0 {
        Seq::empty()
    } else {
        let rest = methods_of(tokens.drop_last());
        match AuthMethod::of_token(tokens.last()) {
            Some(m) => rest.push(m),
            None => rest,
        }
    }
}

/// The methods of a session, from the tokens in which they are written down.
pub fn parse_methods(tokens: &str) -> (r: Vec<AuthMethod>)
    ensures
        r@ == methods_of(text::words(tokens@)),
{
    let list: Vec<String> = text::words_of(tokens);
    let ghost all = text::texts(list@);
    let mut r: Vec<AuthMethod> = Vec::new();
    let mut i: usize = 0;
    while i < list.len()
        invariant
            i <= list@.len(),
            all == text::texts(list@),
            r@ == methods_of(all.take(i as int)),
        decreases list@.len() - i,
    {
        assert(all.take(i + 1).drop_last() =~= all.take(i as int));
        assert(all.take(i + 1).last() == list@[i as int]@);
        match AuthMethod::parse(list[i].as_str()) {
            Some(m) => r.push(m),
            None => {},
        }
        i = i + 1;
    }
    assert(all.take(all.len() as int) =~= all);
    r
}

/// The tokens of the methods, as they are written down.
pub open spec fn written(methods: Seq<AuthMethod>) -> Seq<char> {
    text::join(methods.map_values(|m: AuthMethod| m.spec_token()), " "@)
}

/// The tokens of the methods, as they are written down.
pub fn methods_token(methods: &Vec<AuthMethod>) -> (r: String)
    ensures
        r@ == written(methods@),
{
    let mut list: Vec<String> = Vec::new();
    let ghost all = methods@.map_values(|m: AuthMethod| m.spec_token());
    let mut i: usize = 0;
    while i < methods.len()
        invariant
            i <= methods@.len(),
            all == methods@.map_values(|m: AuthMethod| m.spec_token()),
            text::texts(list@) == all.take(i as int),
        decreases methods@.len() - i,
    {
        text::push_text(&mut list, methods[i].token());
        assert(all.take(i + 1) =~= all.take(i as int).push(all[i as int]));
        i = i + 1;
    }
    assert(all.take(all.len() as int) =~= all);
    text::joined(&list, " ")
}

/// A method is read back from its token, and a token is one word.
proof fn lemma_token(m: AuthMethod)
    ensures
        AuthMethod::of_token(m.spec_token()) == Some(m),
        text::is_word(m.spec_token()),
{
    reveal_strlit("pwd");
    reveal_strlit("totp");
    reveal_strlit("recovery_code");
    reveal_strlit("passkey");
    reveal_strlit("email_otp");
    reveal_strlit("trusted_device");
    assert("pwd"@.len() == 3);
    assert("totp"@.len() == 4);
    assert("recovery_code"@.len() == 13);
    assert("passkey"@.len() == 7);
    assert("email_otp"@.len() == 9);
    assert("trusted_device"@.len() == 14);
}

/// The methods that a session is recorded with are read back as they were written down.
pub proof fn law_methods_are_read_back(methods: Seq<AuthMethod>)
    ensures
        methods_of(text::words(written(methods))) == methods,
    decreases methods.len(),
{
    let tokens = methods.map_values(|m: AuthMethod| m.spec_token());
    if methods.len() == 0 {
        assert(written(methods) =~= Seq::empty());
        assert(methods_of(text::words(written(methods))) =~= methods);
    } else {
        let front = methods.drop_last();
        let last = methods.last();
        lemma_token(last);
        law_methods_are_read_back(front);
        reveal_strlit(" ");
        assert(" "@ =~= seq![' ']);
        assert(tokens.drop_last() =~= front.map_values(|m: AuthMethod| m.spec_token()));
        assert(tokens.last() == last.spec_token());
        let before = text::words(written(front));
        if methods.len() == 1 {
            text::lemma_words_of_word(last.spec_token());
            assert(written(front) =~= Seq::empty());
            assert(before =~= Seq::empty());
            assert(text::words(written(methods)) =~= before.push(last.spec_token()));
        } else {
            text::lemma_words_push(written(front), last.spec_token());
        }
        assert(before.push(last.spec_token()).drop_last() =~= before);
        assert(front.push(last) =~= methods);
    }
}

/// A sign-in that was proven: by which methods, and when.
#[derive(Debug, Clone, PartialEq, Eq)]
pub struct AuthenticationEvent {
    pub methods: Vec<AuthMethod>,
    pub auth_time_unix_micros: i64,
}

impl AuthenticationEvent {
    /// The sign-in was proven by these methods, at this time.
    pub open spec fn proves(&self, methods: Seq<AuthMethod>, auth_time_unix_micros: i64) -> bool {
        self.methods@ == methods && self.auth_time_unix_micros == auth_time_unix_micros
    }

    /// A sign-in with a password.
    pub fn password(auth_time_unix_micros: i64) -> (r: Self)
        ensures
            r.proves(seq![AuthMethod::Password], auth_time_unix_micros),
            written(r.methods@) == "pwd"@,
    {
        let mut methods: Vec<AuthMethod> = Vec::new();
        methods.push(AuthMethod::Password);
        assert(methods@ =~= seq![AuthMethod::Password]);
        AuthenticationEvent { methods, auth_time_unix_micros }
    }

    /// A sign-in with what was sent to an email address.
    pub fn email_otp(auth_time_unix_micros: i64) -> (r: Self)
        ensures
            r.proves(seq![AuthMethod::EmailOtp], auth_time_unix_micros),
            written(r.methods@) == "email_otp"@,
    {
        let mut methods: Vec<AuthMethod> = Vec::new();
        methods.push(AuthMethod::EmailOtp);
        assert(methods@ =~= seq![AuthMethod::EmailOtp]);
        AuthenticationEvent { methods, auth_time_unix_micros }
    }

    /// A sign-in with these methods.
    pub fn from_methods(methods: Vec<AuthMethod>, auth_time_unix_micros: i64) -> (r: Self)
        ensures
            r.proves(methods@, auth_time_unix_micros),
    {
        AuthenticationEvent { methods, auth_time_unix_micros }
    }

    /// The tokens of the methods, as they are written down.
    pub fn methods_token(&self) -> (r: String)
        ensures
            r@ == written(self.methods@),
    {
        methods_token(&self.methods)
    }
}

/// The highest rung that the methods achieve.
pub open spec fn highest(methods: Seq<AuthMethod>) -> int
    decreases methods.len(),
{
    if methods.len() == 0 {
        0
    } else {
        let rest = highest(methods.drop_last());
        if methods.last().rung() > rest {
            methods.last().rung()
        } else {
            rest
        }
    }
}

/// The class that a session achieves: that of its strongest method.
pub fn achieved_acr(methods: &Vec<AuthMethod>) -> (r: &'static str)
    ensures
        r@ == step_up::ladder()[highest(methods@)],
{
    let known = step_up::known_step_up_acrs();
    let mut best: usize = 0;
    let mut i: usize = 0;
    while i < methods.len()
        invariant
            i <= methods@.len(),
            best == highest(methods@.take(i as int)),
            best <= 3,
        decreases methods@.len() - i,
    {
        assert(methods@.take(i + 1).drop_last() =~= methods@.take(i as int));
        let rung: usize = match methods[i] {
            AuthMethod::Password => 0,
            AuthMethod::EmailOtp => 0,
            AuthMethod::TrustedDevice => 1,
            AuthMethod::Totp => 2,
            AuthMethod::RecoveryCode => 2,
            AuthMethod::Passkey => 3,
        };
        if rung > best {
            best = rung;
        }
        i = i + 1;
    }
    assert(methods@.take(methods@.len() as int) =~= methods@);
    assert(known@.len() == step_up::ladder().len()) by {
        assert(step_up::strs(known@).len() == known@.len());
    }
    assert(step_up::strs(known@)[best as int] == step_up::ladder()[best as int]);
    known[best]
}

/// A password and what was sent to an email address are of one class, a trusted device is above
/// them, a one-time code and a recovery code are above that, and a passkey is above all of these.
pub proof fn law_a_method_has_its_place_on_the_ladder()
    ensures
        step_up::ladder()[AuthMethod::Password.rung()] == "urn:ironauth:acr:pwd"@,
        step_up::ladder()[AuthMethod::EmailOtp.rung()] == "urn:ironauth:acr:pwd"@,
        AuthMethod::EmailOtp.rung() == AuthMethod::Password.rung(),
        AuthMethod::Password.rung() < AuthMethod::TrustedDevice.rung(),
        AuthMethod::TrustedDevice.rung() < AuthMethod::Totp.rung(),
        AuthMethod::RecoveryCode.rung() == AuthMethod::Totp.rung(),
        AuthMethod::Totp.rung() < AuthMethod::Passkey.rung(),
        step_up::ladder()[AuthMethod::TrustedDevice.rung()] == "urn:ironauth:acr:mfa_remembered"@,
        step_up::ladder()[AuthMethod::Totp.rung()] == "urn:ironauth:acr:mfa"@,
        step_up::ladder()[AuthMethod::Passkey.rung()] == "phr"@,
{
}

/// A session achieves the class of its strongest method, wherever that stands in the list: no method
/// of it achieves more, and one of them achieves that. Without a method it achieves the lowest.
pub proof fn law_the_strongest_method_counts(methods: Seq<AuthMethod>)
    ensures
        forall|i: int| 0 <= i < methods.len() ==> (#[trigger] methods[i]).rung() <= highest(methods),
        methods.len() == 0 ==> highest(methods) == AuthMethod::Password.rung(),
        methods.len() > 0 ==> exists|i: int|
            0 <= i < methods.len() && (#[trigger] methods[i]).rung() == highest(methods),
        0 <= highest(methods) <= AuthMethod::Passkey.rung(),
    decreases methods.len(),
{
    if methods.len() > 0 {
        let front = methods.drop_last();
        law_the_strongest_method_counts(front);
        assert forall|i: int| 0 <= i < methods.len() implies (#[trigger] methods[i]).rung() <= highest(
            methods,
        ) by {
            if i < methods.len() - 1 {
                assert(front[i] == methods[i]);
            }
        }
        if highest(methods) == methods.last().rung() {
            assert(methods[methods.len() - 1].rung() == highest(methods));
        } else {
            assert(front.len() > 0) by {
                if front.len() == 0 {
                    assert(highest(front) == 0);
                    assert(methods.last().rung() >= 0);
                }
            }
            let i = choose|i: int|
                0 <= i < front.len() && (#[trigger] front[i]).rung() == highest(front);
            assert(methods[i].rung() == highest(methods));
        }
    }
}

/// A token is that of the method that it is read as, and none is read as a method otherwise. The
/// methods of a session are read in their order, and a token that stands for none is passed over.
pub proof fn law_a_token_is_that_of_its_method(tokens: Seq<Seq<char>>, token: Seq<char>)
    ensures
        AuthMethod::of_token(token) matches Some(m) ==> m.spec_token() == token,
        AuthMethod::of_token(token) is None ==> forall|m: AuthMethod| #[trigger] m.spec_token() != token,
        AuthMethod::of_token("pwd"@) == Some(AuthMethod::Password),
        AuthMethod::of_token("totp"@) == Some(AuthMethod::Totp),
        AuthMethod::of_token("recovery_code"@) == Some(AuthMethod::RecoveryCode),
        AuthMethod::of_token("passkey"@) == Some(AuthMethod::Passkey),
        AuthMethod::of_token("email_otp"@) == Some(AuthMethod::EmailOtp),
        AuthMethod::of_token("trusted_device"@) == Some(AuthMethod::TrustedDevice),
        methods_of(Seq::empty()).len() == 0,
        AuthMethod::of_token(token) matches Some(m) ==> methods_of(tokens.push(token))
            == methods_of(tokens).push(m),
        AuthMethod::of_token(token) is None ==> methods_of(tokens.push(token)) == methods_of(tokens),
{
    lemma_token(AuthMethod::Password);
    lemma_token(AuthMethod::Totp);
    lemma_token(AuthMethod::RecoveryCode);
    lemma_token(AuthMethod::Passkey);
    lemma_token(AuthMethod::EmailOtp);
    lemma_token(AuthMethod::TrustedDevice);
    assert(tokens.push(token).drop_last() =~= tokens);
    assert forall|m: AuthMethod| AuthMethod::of_token(token) is None implies #[trigger] m.spec_token()
        != token by {
        lemma_token(m);
    }
}

} // verus!
