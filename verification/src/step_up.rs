//! The ladder of authentication context classes.
//!
//! A session achieves a context class by the way it authenticated. The ladder orders the classes
//! by strength; a requirement is met by its own class and by every class above it.

use vstd::prelude::*;

use crate::text;

verus! {

/// A password.
pub const ACR_PWD: &'static str = "urn:ironauth:acr:pwd";

/// A second factor that a trusted device stands in for.
pub const ACR_MFA_REMEMBERED: &'static str = "urn:ironauth:acr:mfa_remembered";

/// A second factor.
pub const ACR_MFA: &'static str = "urn:ironauth:acr:mfa";

/// A phishing-resistant credential.
pub const ACR_PHR: &'static str = "phr";

/// A phishing-resistant, hardware-protected credential.
pub const ACR_PHRH: &'static str = "phrh";

/// A passkey whose authenticator was attested.
pub const ACR_ATTESTED_PASSKEY: &'static str = "urn:ironauth:acr:attested_passkey";

/// What a short name stands for: this, followed by the name.
pub const ACR_URN_PREFIX: &'static str = "urn:ironauth:acr:";

/// The classes a session can achieve, weakest first.
pub open spec fn ladder() -> Seq<Seq<char>> {
    seq![
        ACR_PWD@,
        ACR_MFA_REMEMBERED@,
        ACR_MFA@,
        ACR_PHR@,
        ACR_PHRH@,
        ACR_ATTESTED_PASSKEY@,
    ]
}

/// The texts of a list of borrowed strings.
pub open spec fn strs(v: Seq<&'static str>) -> Seq<Seq<char>> {
    v.map_values(|s: &'static str| s@)
}

/// The classes that an operator can name, weakest first.
pub fn known_step_up_acrs() -> (r: Vec<&'static str>)
    ensures
        strs(r@) == ladder(),
{
    let r: Vec<&'static str> = vec![
        ACR_PWD,
        ACR_MFA_REMEMBERED,
        ACR_MFA,
        ACR_PHR,
        ACR_PHRH,
        ACR_ATTESTED_PASSKEY,
    ];
    assert(strs(r@) =~= ladder());
    r
}

/// The order of the classes where a deployment configures none.
pub fn default_acr_order() -> (r: Vec<String>)
    ensures
        text::texts(r@) == ladder(),
{
    let known = known_step_up_acrs();
    let mut r: Vec<String> = Vec::new();
    let mut i: usize = 0;
    while i < known.len()
        invariant
            i <= known@.len(),
            strs(known@) == ladder(),
            text::texts(r@) == ladder().take(i as int),
        decreases known@.len() - i,
    {
        let ghost done = r@;
        r.push(known[i].to_owned());
        assert(text::texts(r@) =~= text::texts(done).push(strs(known@)[i as int]));
        assert(ladder().take(i + 1) =~= ladder().take(i as int).push(ladder()[i as int]));
        i = i + 1;
    }
    assert(ladder().take(ladder().len() as int) =~= ladder());
    r
}

/// The class that a name stands for: a short name is resolved, every other is itself.
pub open spec fn canonical(acr: Seq<char>) -> Seq<char> {
    if ladder().contains(ACR_URN_PREFIX@ + acr) {
        ACR_URN_PREFIX@ + acr
    } else {
        acr
    }
}

/// Whether `acr` is a rung of the ladder.
pub fn is_rung(acr: &str) -> (r: bool)
    ensures
        r == ladder().contains(acr@),
{
    let known = known_step_up_acrs();
    let mut i: usize = 0;
    while i < known.len()
        invariant
            i <= known@.len(),
            strs(known@) == ladder(),
            forall|k: int| 0 <= k < i ==> ladder()[k] != acr@,
        decreases known@.len() - i,
    {
        if text::same(known[i], acr) {
            assert(strs(known@)[i as int] == acr@);
            return true;
        }
        assert(strs(known@)[i as int] != acr@);
        i = i + 1;
    }
    false
}

/// The class that a name stands for: `mfa` is the class that a session with a second factor
/// achieves, and a name that stands for no other is itself.
pub fn canonical_step_up_acr(acr: &str) -> (r: String)
    ensures
        r@ == canonical(acr@),
{
    let mut full: String = ACR_URN_PREFIX.to_owned();
    full.append(acr);
    if is_rung(full.as_str()) {
        full
    } else {
        acr.to_owned()
    }
}

/// Whether a name stands for a class that some session achieves.
pub fn is_known_step_up_acr(acr: &str) -> (r: bool)
    ensures
        r == ladder().contains(canonical(acr@)),
{
    is_rung(canonical_step_up_acr(acr).as_str())
}

// ---------------------------------------------------------------------------
// Ranking
// ---------------------------------------------------------------------------

/// The rank of a class in an order: its first place there.
pub open spec fn rank(order: Seq<Seq<char>>, acr: Seq<char>) -> Option<int>
    decreases order.len(),
{
    if order.len() == 0 {
        None
    } else if order[0] == acr {
        Some(0)
    } else {
        match rank(order.skip(1), acr) {
            Some(i) => Some(i + 1),
            None => None,
        }
    }
}

/// The achieved class meets the required one: it is the same, or both are ranked and it is not
/// the weaker. Nothing is met by a session without a class.
pub open spec fn meets(order: Seq<Seq<char>>, achieved: Option<Seq<char>>, required: Seq<char>) -> bool {
    match achieved {
        Some(acr) => acr == required || match (rank(order, acr), rank(order, required)) {
            (Some(a), Some(r)) => a >= r,
            _ => false,
        },
        None => false,
    }
}

/// The rank of a class in an order.
pub fn rank_of(order: &Vec<String>, acr: &str) -> (r: Option<usize>)
    ensures
        match r {
            Some(i) => rank(text::texts(order@), acr@) == Some(i as int),
            None => rank(text::texts(order@), acr@) is None,
        },
{
    let mut i: usize = 0;
    let ghost all = text::texts(order@);
    assert(all.skip(0) =~= all);
    while i < order.len()
        invariant
            i <= order@.len(),
            all == text::texts(order@),
            match rank(all.skip(i as int), acr@) {
                Some(k) => rank(all, acr@) == Some(k + i),
                None => rank(all, acr@) is None,
            },
        decreases order@.len() - i,
    {
        assert(all.skip(i as int)[0] == order@[i as int]@);
        if text::same(order[i].as_str(), acr) {
            return Some(i);
        }
        assert(all.skip(i as int).skip(1) =~= all.skip(i + 1));
        i = i + 1;
    }
    None
}

/// Whether the achieved class meets the required one.
pub fn acr_meets(order: &Vec<String>, achieved: Option<&str>, required: &str) -> (r: bool)
    ensures
        r == meets(text::texts(order@), text::opt_str(achieved), required@),
{
    match achieved {
        Some(acr) => text::same(acr, required) || match (
            rank_of(order, acr),
            rank_of(order, required),
        ) {
            (Some(a), Some(r)) => a >= r,
            _ => false,
        },
        None => false,
    }
}

/// A class that is ranked stands at its rank in the order, and one that is not stands nowhere.
pub proof fn lemma_rank(order: Seq<Seq<char>>, acr: Seq<char>)
    ensures
        match rank(order, acr) {
            Some(i) => 0 <= i < order.len() && order[i] == acr && forall|k: int|
                0 <= k < i ==> order[k] != acr,
            None => !order.contains(acr),
        },
    decreases order.len(),
{
    if order.len() > 0 && order[0] != acr {
        let rest = order.skip(1);
        lemma_rank(rest, acr);
        match rank(rest, acr) {
            Some(i) => {
                assert(rest[i] == order[i + 1]);
                assert forall|k: int| 0 <= k < i + 1 implies order[k] != acr by {
                    if k > 0 {
                        assert(rest[k - 1] == order[k]);
                    }
                }
            },
            None => {
                if order.contains(acr) {
                    let k = choose|k: int| 0 <= k < order.len() && order[k] == acr;
                    assert(rest[k - 1] == acr);
                }
            },
        }
    }
}

/// A session of a class is asked for nothing by a requirement of its own class, nor of one that
/// stands before it in an order; one that stands behind it, and one that is not ranked, asks.
pub proof fn law_a_requirement_is_met_from_above(
    order: Seq<Seq<char>>,
    achieved: Seq<char>,
    required: Seq<char>,
)
    ensures
        meets(order, Some(achieved), achieved),
        !meets(order, None, required),
        meets(order, Some(achieved), required) ==> achieved == required || (order.contains(achieved)
            && order.contains(required)),
        forall|i: int, j: int|
            #![trigger order[i], order[j]]
            0 <= i < j < order.len() && order[i] == required && order[j] == achieved && achieved
                != required && (forall|k: int| 0 <= k < j ==> order[k] != achieved) ==> meets(
                order,
                Some(achieved),
                required,
            ),
        forall|i: int, j: int|
            #![trigger order[i], order[j]]
            0 <= i < j < order.len() && order[i] == achieved && order[j] == required && achieved
                != required && (forall|k: int| 0 <= k < j ==> order[k] != required) ==> !meets(
                order,
                Some(achieved),
                required,
            ),
{
    lemma_rank(order, achieved);
    lemma_rank(order, required);
}

/// The ladder rises from a password by a remembered second factor and a second factor to a
/// phishing-resistant credential, and each of these meets what is below it and nothing above.
pub proof fn law_the_ladder_rises()
    ensures
        meets(ladder(), Some(ACR_MFA_REMEMBERED@), ACR_PWD@),
        meets(ladder(), Some(ACR_MFA@), ACR_MFA_REMEMBERED@),
        meets(ladder(), Some(ACR_PHR@), ACR_MFA@),
        meets(ladder(), Some(ACR_PHRH@), ACR_PHR@),
        meets(ladder(), Some(ACR_ATTESTED_PASSKEY@), ACR_PHRH@),
        !meets(ladder(), Some(ACR_PWD@), ACR_MFA_REMEMBERED@),
        !meets(ladder(), Some(ACR_MFA_REMEMBERED@), ACR_MFA@),
        !meets(ladder(), Some(ACR_MFA@), ACR_PHR@),
        !meets(ladder(), Some(ACR_PHR@), ACR_PHRH@),
        !meets(ladder(), Some(ACR_PHRH@), ACR_ATTESTED_PASSKEY@),
{
    reveal_strlit("urn:ironauth:acr:pwd");
    reveal_strlit("urn:ironauth:acr:mfa_remembered");
    reveal_strlit("urn:ironauth:acr:mfa");
    reveal_strlit("phr");
    reveal_strlit("phrh");
    reveal_strlit("urn:ironauth:acr:attested_passkey");
    assert(ACR_PWD@.len() == 20 && ACR_MFA@.len() == 20);
    assert(ACR_PWD@[17] == 'p' && ACR_MFA@[17] == 'm');
    assert(ACR_MFA_REMEMBERED@.len() == 31 && ACR_PHR@.len() == 3 && ACR_PHRH@.len() == 4
        && ACR_ATTESTED_PASSKEY@.len() == 33);
    let l = ladder();
    assert(l.len() == 6);
    assert(l[0] == ACR_PWD@ && l[1] == ACR_MFA_REMEMBERED@ && l[2] == ACR_MFA@ && l[3] == ACR_PHR@
        && l[4] == ACR_PHRH@ && l[5] == ACR_ATTESTED_PASSKEY@);
    law_a_requirement_is_met_from_above(l, l[1], l[0]);
    law_a_requirement_is_met_from_above(l, l[2], l[1]);
    law_a_requirement_is_met_from_above(l, l[3], l[2]);
    law_a_requirement_is_met_from_above(l, l[4], l[3]);
    law_a_requirement_is_met_from_above(l, l[5], l[4]);
    law_a_requirement_is_met_from_above(l, l[0], l[1]);
    law_a_requirement_is_met_from_above(l, l[1], l[2]);
    law_a_requirement_is_met_from_above(l, l[2], l[3]);
    law_a_requirement_is_met_from_above(l, l[3], l[4]);
    law_a_requirement_is_met_from_above(l, l[4], l[5]);
}

/// A short name stands for the class that is written out in full, and a class that is written out
/// stands for itself.
pub proof fn law_a_short_name_is_written_out(name: Seq<char>)
    ensures
        ladder().contains(ACR_URN_PREFIX@ + name) ==> canonical(name) == ACR_URN_PREFIX@ + name,
        !ladder().contains(ACR_URN_PREFIX@ + name) ==> canonical(name) == name,
        canonical("mfa"@) == ACR_MFA@,
        canonical("pwd"@) == ACR_PWD@,
{
    reveal_strlit("urn:ironauth:acr:");
    reveal_strlit("mfa");
    reveal_strlit("pwd");
    reveal_strlit("urn:ironauth:acr:pwd");
    reveal_strlit("urn:ironauth:acr:mfa");
    assert(ACR_URN_PREFIX@ + "mfa"@ =~= ACR_MFA@);
    assert(ACR_URN_PREFIX@ + "pwd"@ =~= ACR_PWD@);
    assert(ladder()[0] == ACR_PWD@);
    assert(ladder()[2] == ACR_MFA@);
}

/// No class is written with the prefix twice, and the prefix alone is none.
pub proof fn lemma_prefixed(name: Seq<char>)
    ensures
        ladder().contains(name) ==> !ladder().contains(ACR_URN_PREFIX@ + name),
        name.len() == 0 ==> !ladder().contains(ACR_URN_PREFIX@ + name) && !ladder().contains(name),
{
    reveal_strlit("urn:ironauth:acr:");
    reveal_strlit("urn:ironauth:acr:pwd");
    reveal_strlit("urn:ironauth:acr:mfa_remembered");
    reveal_strlit("urn:ironauth:acr:mfa");
    reveal_strlit("phr");
    reveal_strlit("phrh");
    reveal_strlit("urn:ironauth:acr:attested_passkey");
    let l = ladder();
    assert(l[0].len() == 20 && l[1].len() == 31 && l[2].len() == 20 && l[3].len() == 3 && l[4].len()
        == 4 && l[5].len() == 33);
    assert(l[0][17] == 'p' && l[1][17] == 'm' && l[2][17] == 'm' && l[5][17] == 'a');
    assert(l[0][18] == 'w' && l[3][0] == 'p' && l[3][1] == 'h');
    let full = ACR_URN_PREFIX@ + name;
    if l.contains(full) {
        let k = choose|k: int| 0 <= k < l.len() && l[k] == full;
        if l.contains(name) {
            let j = choose|j: int| 0 <= j < l.len() && l[j] == name;
            assert(full.len() == 17 + l[j].len());
            assert(full[17] == l[j][0]);
            assert(full[18] == l[j][1]);
        }
        if name.len() == 0 {
            assert(full.len() == 17);
        }
    }
    if name.len() == 0 && l.contains(name) {
        let j = choose|j: int| 0 <= j < l.len() && l[j] == name;
    }
}

} // verus!
