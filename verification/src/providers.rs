//! Decisions of the sign-in provider pages: the catalog of known providers,
//! which of them are switched on, and the labels of the sign-in buttons.

use vstd::prelude::*;

use crate::contracts::AuthProviderSummary;
use crate::text::{chars_of, decimal, lower, lower_seq, owned, push_decimal, push_str};

verus! {

/// The providers the account page always shows, by id and name, in order.
pub open spec fn provider_catalog_spec() -> Seq<(Seq<char>, Seq<char>)> {
    seq![("google"@, "Google"@), ("facebook"@, "Facebook"@), ("apple"@, "Apple"@)]
}

/// The provider catalog, as `(id, name)` pairs.
pub fn provider_catalog() -> (r: Vec<(&'static str, &'static str)>)
    ensures
        r@.len() == provider_catalog_spec().len(),
        forall|i: int|
            0 <= i < r@.len() ==> (#[trigger] r@[i]).0@ == provider_catalog_spec()[i].0 && r@[i].1@
                == provider_catalog_spec()[i].1,
{
    let mut r: Vec<(&'static str, &'static str)> = Vec::new();
    r.push(("google", "Google"));
    r.push(("facebook", "Facebook"));
    r.push(("apple", "Apple"));
    r
}

/// Some stored provider matches the id, ignoring ASCII case, and is switched on.
pub open spec fn provider_switched_on(list: Seq<AuthProviderSummary>, brand_id: Seq<char>) -> bool {
    exists|i: int|
        0 <= i < list.len() && lower_seq((#[trigger] list[i]).provider_id@) == lower_seq(brand_id)
            && list[i].enabled
}

fn same_ignoring_ascii_case(a: &str, b: &str) -> (r: bool)
    ensures
        r == (lower_seq(a@) == lower_seq(b@)),
{
    let x = chars_of(a);
    let y = chars_of(b);
    if x.len() != y.len() {
        proof {
            assert(lower_seq(a@).len() != lower_seq(b@).len());
        }
        return false;
    }
    let mut i: usize = 0;
    while i < x.len()
        invariant
            x@ == a@,
            y@ == b@,
            x@.len() == y@.len(),
            i <= x@.len(),
            forall|j: int| 0 <= j < i ==> lower(#[trigger] x@[j]) == lower(y@[j]),
        decreases x@.len() - i,
    {
        if crate::text::char_lower(x[i]) != crate::text::char_lower(y[i]) {
            proof {
                assert(lower_seq(a@)[i as int] != lower_seq(b@)[i as int]);
            }
            return false;
        }
        i += 1;
    }
    proof {
        assert(lower_seq(a@) =~= lower_seq(b@));
    }
    true
}

/// Whether a catalog card is shown as enabled.
pub fn provider_is_switched_on(list: &Vec<AuthProviderSummary>, brand_id: &str) -> (r: bool)
    ensures
        r == provider_switched_on(list@, brand_id@),
{
    let mut i: usize = 0;
    while i < list.len()
        invariant
            i <= list@.len(),
            forall|j: int|
                0 <= j < i ==> !(lower_seq((#[trigger] list@[j]).provider_id@) == lower_seq(
                    brand_id@,
                ) && list@[j].enabled),
        decreases list@.len() - i,
    {
        if list[i].enabled && same_ignoring_ascii_case(list[i].provider_id.as_str(), brand_id) {
            return true;
        }
        i += 1;
    }
    false
}

/// The number of switched-on providers.
pub open spec fn enabled_count(list: Seq<AuthProviderSummary>) -> nat
    decreases list.len(),
{
    if list.len() == 0 {
        0
    } else {
        enabled_count(list.drop_last()) + if list.last().enabled {
            1nat
        } else {
            0nat
        }
    }
}

/// The line under the catalog.
pub open spec fn providers_status_spec(list: Seq<AuthProviderSummary>) -> Seq<char> {
    let n = enabled_count(list);
    if n == 0 {
        "No providers are enabled."@
    } else if n == 1 {
        "1 provider enabled for sign-in."@
    } else {
        decimal(n) + " providers enabled for sign-in."@
    }
}

pub fn providers_status_line(list: &Vec<AuthProviderSummary>) -> (r: String)
    ensures
        r@ == providers_status_spec(list@),
{
    let mut n: u64 = 0;
    let mut i: usize = 0;
    while i < list.len()
        invariant
            i <= list@.len(),
            n == enabled_count(list@.subrange(0, i as int)),
            n <= i,
        decreases list@.len() - i,
    {
        proof {
            assert(list@.subrange(0, i + 1).drop_last() =~= list@.subrange(0, i as int));
        }
        if list[i].enabled {
            n = n + 1;
        }
        i += 1;
    }
    proof {
        assert(list@.subrange(0, list@.len() as int) =~= list@);
    }
    if n == 0 {
        owned("No providers are enabled.")
    } else if n == 1 {
        proof {
            reveal_strlit("1 provider enabled for sign-in.");
            reveal_strlit(" provider enabled for sign-in.");
            assert(decimal(1) == seq!['1']) by {
                reveal_with_fuel(decimal, 2);
            }
        }
        let mut r = String::new();
        push_decimal(&mut r, n);
        push_str(&mut r, " provider enabled for sign-in.");
        proof {
            assert(r@ =~= "1 provider enabled for sign-in."@);
        }
        r
    } else {
        let mut r = String::new();
        push_decimal(&mut r, n);
        push_str(&mut r, " providers enabled for sign-in.");
        r
    }
}

/// The label of a provider's sign-in button.
pub fn provider_button_label(label: &str, pending: bool) -> (r: String)
    ensures
        r@ == if pending {
            "Connecting to "@ + label@ + "\u{2026}"@
        } else {
            "Sign in with "@ + label@
        },
{
    if pending {
        let mut r = owned("Connecting to ");
        push_str(&mut r, label);
        push_str(&mut r, "\u{2026}");
        r
    } else {
        let mut r = owned("Sign in with ");
        push_str(&mut r, label);
        r
    }
}

} // verus!
