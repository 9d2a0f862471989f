//! The signature algorithms of tokens.

use vstd::prelude::*;

use crate::text;

verus! {

/// A signature algorithm.
#[derive(Debug, Clone, Copy, PartialEq, Eq, Structural)]
pub enum JwsAlgorithm {
    EdDsa,
    Es256,
    Es384,
    Rs256,
    Rs384,
    Rs512,
    Ps256,
    Ps384,
    Ps512,
}

impl JwsAlgorithm {
    /// The name of the algorithm.
    pub open spec fn name(self) -> Seq<char> {
        match self {
            JwsAlgorithm::EdDsa => "EdDSA"@,
            JwsAlgorithm::Es256 => "ES256"@,
            JwsAlgorithm::Es384 => "ES384"@,
            JwsAlgorithm::Rs256 => "RS256"@,
            JwsAlgorithm::Rs384 => "RS384"@,
            JwsAlgorithm::Rs512 => "RS512"@,
            JwsAlgorithm::Ps256 => "PS256"@,
            JwsAlgorithm::Ps384 => "PS384"@,
            JwsAlgorithm::Ps512 => "PS512"@,
        }
    }

    /// The name of the algorithm.
    pub fn jose_name(self) -> (r: &'static str)
        ensures
            r@ == self.name(),
    {
        match self {
            JwsAlgorithm::EdDsa => "EdDSA",
            JwsAlgorithm::Es256 => "ES256",
            JwsAlgorithm::Es384 => "ES384",
            JwsAlgorithm::Rs256 => "RS256",
            JwsAlgorithm::Rs384 => "RS384",
            JwsAlgorithm::Rs512 => "RS512",
            JwsAlgorithm::Ps256 => "PS256",
            JwsAlgorithm::Ps384 => "PS384",
            JwsAlgorithm::Ps512 => "PS512",
        }
    }

    /// The algorithm of this name.
    pub open spec fn of_name(name: Seq<char>) -> Option<JwsAlgorithm> {
        if name == "EdDSA"@ {
            Some(JwsAlgorithm::EdDsa)
        } else if name == "ES256"@ {
            Some(JwsAlgorithm::Es256)
        } else if name == "ES384"@ {
            Some(JwsAlgorithm::Es384)
        } else if name == "RS256"@ {
            Some(JwsAlgorithm::Rs256)
        } else if name == "RS384"@ {
            Some(JwsAlgorithm::Rs384)
        } else if name == "RS512"@ {
            Some(JwsAlgorithm::Rs512)
        } else if name == "PS256"@ {
            Some(JwsAlgorithm::Ps256)
        } else if name == "PS384"@ {
            Some(JwsAlgorithm::Ps384)
        } else if name == "PS512"@ {
            Some(JwsAlgorithm::Ps512)
        } else {
            None
        }
    }

    /// The algorithm of this name, if it is one that can be represented.
    pub fn from_jose_name(name: &str) -> (r: Option<JwsAlgorithm>)
        ensures
            r == JwsAlgorithm::of_name(name@),
    {
        if text::same(name, "EdDSA") {
            Some(JwsAlgorithm::EdDsa)
        } else if text::same(name, "ES256") {
            Some(JwsAlgorithm::Es256)
        } else if text::same(name, "ES384") {
            Some(JwsAlgorithm::Es384)
        } else if text::same(name, "RS256") {
            Some(JwsAlgorithm::Rs256)
        } else if text::same(name, "RS384") {
            Some(JwsAlgorithm::Rs384)
        } else if text::same(name, "RS512") {
            Some(JwsAlgorithm::Rs512)
        } else if text::same(name, "PS256") {
            Some(JwsAlgorithm::Ps256)
        } else if text::same(name, "PS384") {
            Some(JwsAlgorithm::Ps384)
        } else if text::same(name, "PS512") {
            Some(JwsAlgorithm::Ps512)
        } else {
            None
        }
    }

    /// The algorithm signs with an RSA key.
    pub open spec fn spec_is_rsa(self) -> bool {
        !(self is EdDsa || self is Es256 || self is Es384)
    }

    /// Whether the algorithm signs with an RSA key.
    pub fn is_rsa(self) -> (r: bool)
        ensures
            r == self.spec_is_rsa(),
    {
        match self {
            JwsAlgorithm::EdDsa | JwsAlgorithm::Es256 | JwsAlgorithm::Es384 => false,
            _ => true,
        }
    }
}

/// Whether a list holds an algorithm.
pub fn holds(list: &Vec<JwsAlgorithm>, alg: JwsAlgorithm) -> (r: bool)
    ensures
        r == list@.contains(alg),
{
    let mut i: usize = 0;
    while i < list.len()
        invariant
            i <= list@.len(),
            forall|k: int| 0 <= k < i ==> list@[k] != alg,
        decreases list@.len() - i,
    {
        if list[i] == alg {
            return true;
        }
        i = i + 1;
    }
    false
}

// ---------------------------------------------------------------------------
// Laws
// ---------------------------------------------------------------------------

/// An algorithm is known by its own name, and by no other.
pub proof fn law_an_algorithm_is_known_by_its_name(alg: JwsAlgorithm, name: Seq<char>)
    ensures
        JwsAlgorithm::of_name(alg.name()) == Some(alg),
        JwsAlgorithm::of_name(name) == Some(alg) ==> name == alg.name(),
{
    reveal_strlit("EdDSA");
    reveal_strlit("ES256");
    reveal_strlit("ES384");
    reveal_strlit("RS256");
    reveal_strlit("RS384");
    reveal_strlit("RS512");
    reveal_strlit("PS256");
    reveal_strlit("PS384");
    reveal_strlit("PS512");
    assert("EdDSA"@[1] == 'd' && "ES256"@[1] == 'S' && "ES384"@[1] == 'S' && "RS256"@[1] == 'S'
        && "RS384"@[1] == 'S' && "RS512"@[1] == 'S' && "PS256"@[1] == 'S' && "PS384"@[1] == 'S'
        && "PS512"@[1] == 'S');
    assert("ES256"@[0] == 'E' && "ES384"@[0] == 'E' && "RS256"@[0] == 'R' && "RS384"@[0] == 'R'
        && "RS512"@[0] == 'R' && "PS256"@[0] == 'P' && "PS384"@[0] == 'P' && "PS512"@[0] == 'P');
    assert("ES256"@[2] == '2' && "ES384"@[2] == '3' && "RS256"@[2] == '2' && "RS384"@[2] == '3'
        && "RS512"@[2] == '5' && "PS256"@[2] == '2' && "PS384"@[2] == '3' && "PS512"@[2] == '5');
}

/// The algorithms are written as they are registered, and those with an RSA key are the ones whose
/// name begins with `RS` or `PS`.
pub proof fn law_algorithms_are_written_as_registered(alg: JwsAlgorithm)
    ensures
        alg is EdDsa ==> alg.name() == "EdDSA"@,
        alg is Es256 ==> alg.name() == "ES256"@,
        alg is Es384 ==> alg.name() == "ES384"@,
        alg is Rs256 ==> alg.name() == "RS256"@,
        alg is Rs384 ==> alg.name() == "RS384"@,
        alg is Rs512 ==> alg.name() == "RS512"@,
        alg is Ps256 ==> alg.name() == "PS256"@,
        alg is Ps384 ==> alg.name() == "PS384"@,
        alg is Ps512 ==> alg.name() == "PS512"@,
        alg.spec_is_rsa() <==> (alg.name()[0] == 'R' || alg.name()[0] == 'P'),
{
    reveal_strlit("EdDSA");
    reveal_strlit("ES256");
    reveal_strlit("ES384");
    reveal_strlit("RS256");
    reveal_strlit("RS384");
    reveal_strlit("RS512");
    reveal_strlit("PS256");
    reveal_strlit("PS384");
    reveal_strlit("PS512");
}

} // verus!
