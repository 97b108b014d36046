//! The secrets vault page as a state machine: the listed secrets, the values
//! revealed for a while, the create dialog, and the status lines, with what
//! each server answer and click does to them.

use vstd::prelude::*;

use crate::contracts::{SecretCreateRequest, SecretRevealResponse, SecretSummary};
use crate::labels::upper_seq;
use crate::text::{
    char_upper, chars_of, contains_seq, lower_seq, lowercase_range, opt_is, owned, push_char,
    range_contains, str_eq, upper,
};

verus! {

// ---------------------------------------------------------------------------
// Revealed values: the latest entry for an id wins
// ---------------------------------------------------------------------------

/// The revealed value of `id`: that of its last entry.
pub open spec fn revealed_lookup(entries: Seq<(String, String)>, id: Seq<char>) -> Option<Seq<char>>
    decreases entries.len(),
{
    if entries.len() == 0 {
        None
    } else if entries.last().0@ == id {
        Some(entries.last().1@)
    } else {
        revealed_lookup(entries.drop_last(), id)
    }
}

/// The entries of `v` for ids other than `id`.
fn without_entry(v: &Vec<(String, String)>, id: &str) -> (r: Vec<(String, String)>)
    ensures
        forall|k: Seq<char>|
            #[trigger] revealed_lookup(r@, k) == if k == id@ {
                None
            } else {
                revealed_lookup(v@, k)
            },
{
    let mut r: Vec<(String, String)> = Vec::new();
    let mut i: usize = 0;
    while i < v.len()
        invariant
            i <= v@.len(),
            forall|k: Seq<char>|
                #[trigger] revealed_lookup(r@, k) == if k == id@ {
                    None
                } else {
                    revealed_lookup(v@.subrange(0, i as int), k)
                },
        decreases v@.len() - i,
    {
        let ghost before = r@;
        proof {
            assert(v@.subrange(0, i + 1).drop_last() =~= v@.subrange(0, i as int));
        }
        let ghost w = v@.subrange(0, i + 1);
        if !str_eq(v[i].0.as_str(), id) {
            r.push((owned(v[i].0.as_str()), owned(v[i].1.as_str())));
            proof {
                assert(r@.drop_last() =~= before);
                assert forall|k: Seq<char>| #[trigger]
                    revealed_lookup(r@, k) == if k == id@ {
                        None
                    } else {
                        revealed_lookup(w, k)
                    } by {
                    assert(w.last() == v@[i as int]);
                    assert(revealed_lookup(before, k) == if k == id@ {
                        None
                    } else {
                        revealed_lookup(w.drop_last(), k)
                    });
                }
            }
        } else {
            proof {
                assert forall|k: Seq<char>| #[trigger]
                    revealed_lookup(r@, k) == if k == id@ {
                        None
                    } else {
                        revealed_lookup(w, k)
                    } by {
                    assert(w.last() == v@[i as int]);
                    assert(revealed_lookup(before, k) == if k == id@ {
                        None
                    } else {
                        revealed_lookup(w.drop_last(), k)
                    });
                }
            }
        }
        i += 1;
    }
    proof {
        assert(v@.subrange(0, v@.len() as int) =~= v@);
    }
    r
}

// ---------------------------------------------------------------------------
// Listed secrets
// ---------------------------------------------------------------------------

/// The fields of a listed secret.
pub open spec fn secret_view(s: SecretSummary) -> (Seq<char>, Seq<char>, Seq<char>, Seq<char>, Seq<char>, Seq<char>) {
    (s.id@, s.key@, s.name@, s.label@, s.scope@, s.masked_value@)
}

pub open spec fn secrets_view(v: Seq<SecretSummary>) -> Seq<
    (Seq<char>, Seq<char>, Seq<char>, Seq<char>, Seq<char>, Seq<char>),
> {
    v.map_values(|s: SecretSummary| secret_view(s))
}

/// The listed secrets other than those with `id`, in order.
pub open spec fn secrets_without(
    v: Seq<(Seq<char>, Seq<char>, Seq<char>, Seq<char>, Seq<char>, Seq<char>)>,
    id: Seq<char>,
) -> Seq<(Seq<char>, Seq<char>, Seq<char>, Seq<char>, Seq<char>, Seq<char>)>
    decreases v.len(),
{
    if v.len() == 0 {
        v
    } else if v.last().0 == id {
        secrets_without(v.drop_last(), id)
    } else {
        secrets_without(v.drop_last(), id).push(v.last())
    }
}

/// Some listed secret has `id`.
pub open spec fn lists_id(
    v: Seq<(Seq<char>, Seq<char>, Seq<char>, Seq<char>, Seq<char>, Seq<char>)>,
    id: Seq<char>,
) -> bool {
    exists|i: int| 0 <= i < v.len() && (#[trigger] v[i]).0 == id
}

/// No two listed secrets share an id.
pub open spec fn ids_unique(
    v: Seq<(Seq<char>, Seq<char>, Seq<char>, Seq<char>, Seq<char>, Seq<char>)>,
) -> bool {
    forall|i: int, j: int| 0 <= i < j < v.len() ==> (#[trigger] v[i]).0 != (#[trigger] v[j]).0
}

proof fn lemma_push_unique(
    v: Seq<(Seq<char>, Seq<char>, Seq<char>, Seq<char>, Seq<char>, Seq<char>)>,
    x: (Seq<char>, Seq<char>, Seq<char>, Seq<char>, Seq<char>, Seq<char>),
)
    requires
        ids_unique(v),
        !lists_id(v, x.0),
    ensures
        ids_unique(v.push(x)),
{
    let w = v.push(x);
    assert forall|i: int, j: int| 0 <= i < j < w.len() implies (#[trigger] w[i]).0 != (
    #[trigger] w[j]).0 by {
        assert(w[i] == v[i]);
        if j < v.len() {
            assert(w[j] == v[j]);
        } else {
            assert(w[j] == x);
        }
    }
}

/// What is left after removing an id comes from the list, and keeps ids unique.
proof fn lemma_without_unique(
    v: Seq<(Seq<char>, Seq<char>, Seq<char>, Seq<char>, Seq<char>, Seq<char>)>,
    id: Seq<char>,
)
    ensures
        forall|k: int|
            0 <= k < secrets_without(v, id).len() ==> exists|i: int|
                0 <= i < v.len() && v[i] == #[trigger] secrets_without(v, id)[k],
        ids_unique(v) ==> ids_unique(secrets_without(v, id)),
    decreases v.len(),
{
    if v.len() > 0 {
        let p = v.drop_last();
        lemma_without_unique(p, id);
        let w = secrets_without(p, id);
        assert forall|k: int| 0 <= k < w.len() implies exists|i: int|
            0 <= i < v.len() && v[i] == #[trigger] w[k] by {
            let i = choose|i: int| 0 <= i < p.len() && p[i] == w[k];
            assert(v[i] == p[i]);
        }
        if v.last().0 != id {
            let r = w.push(v.last());
            assert forall|k: int| 0 <= k < r.len() implies exists|i: int|
                0 <= i < v.len() && v[i] == #[trigger] r[k] by {
                if k < w.len() {
                    assert(r[k] == w[k]);
                } else {
                    assert(v[v.len() - 1] == r[k]);
                }
            }
            if ids_unique(v) {
                assert(ids_unique(p)) by {
                    assert forall|i: int, j: int| 0 <= i < j < p.len() implies (#[trigger] p[i]).0
                        != (#[trigger] p[j]).0 by {
                        assert(p[i] == v[i] && p[j] == v[j]);
                    }
                }
                if lists_id(w, v.last().0) {
                    let k = choose|k: int| 0 <= k < w.len() && (#[trigger] w[k]).0 == v.last().0;
                    let i = choose|i: int| 0 <= i < p.len() && p[i] == w[k];
                    assert(v[i] == p[i]);
                    assert(v[i].0 == v[v.len() - 1].0);
                }
                lemma_push_unique(w, v.last());
            }
        } else if ids_unique(v) {
            assert(ids_unique(p)) by {
                assert forall|i: int, j: int| 0 <= i < j < p.len() implies (#[trigger] p[i]).0
                    != (#[trigger] p[j]).0 by {
                    assert(p[i] == v[i] && p[j] == v[j]);
                }
            }
        }
    }
}

fn copy_secret(s: &SecretSummary) -> (r: SecretSummary)
    ensures
        secret_view(r) == secret_view(*s),
{
    SecretSummary {
        id: owned(s.id.as_str()),
        key: owned(s.key.as_str()),
        name: owned(s.name.as_str()),
        label: owned(s.label.as_str()),
        scope: owned(s.scope.as_str()),
        masked_value: owned(s.masked_value.as_str()),
    }
}

fn secrets_other_than(v: &Vec<SecretSummary>, id: &str) -> (r: Vec<SecretSummary>)
    ensures
        secrets_view(r@) == secrets_without(secrets_view(v@), id@),
{
    let mut r: Vec<SecretSummary> = Vec::new();
    let mut i: usize = 0;
    while i < v.len()
        invariant
            i <= v@.len(),
            secrets_view(r@) == secrets_without(secrets_view(v@.subrange(0, i as int)), id@),
        decreases v@.len() - i,
    {
        let ghost before = r@;
        proof {
            assert(secrets_view(v@.subrange(0, i + 1)).drop_last() =~= secrets_view(
                v@.subrange(0, i as int),
            ));
            assert(secrets_view(v@.subrange(0, i + 1)).last() == secret_view(v@[i as int]));
        }
        if !str_eq(v[i].id.as_str(), id) {
            r.push(copy_secret(&v[i]));
            proof {
                assert(secrets_view(r@) =~= secrets_view(before).push(secret_view(v@[i as int])));
            }
        }
        i += 1;
    }
    proof {
        assert(v@.subrange(0, v@.len() as int) =~= v@);
    }
    r
}

fn has_secret(v: &Vec<SecretSummary>, id: &str) -> (r: bool)
    ensures
        r == lists_id(secrets_view(v@), id@),
{
    let mut i: usize = 0;
    while i < v.len()
        invariant
            i <= v@.len(),
            forall|j: int| 0 <= j < i ==> v@[j].id@ != id@,
        decreases v@.len() - i,
    {
        if str_eq(v[i].id.as_str(), id) {
            proof {
                assert(secrets_view(v@)[i as int].0 == id@);
            }
            return true;
        }
        i += 1;
    }
    proof {
        if lists_id(secrets_view(v@), id@) {
            let j = choose|j: int| 0 <= j < secrets_view(v@).len() && (#[trigger] secrets_view(
                v@,
            )[j]).0 == id@;
            assert(v@[j].id@ == id@);
        }
    }
    false
}

/// The key column of a secret: its key, or its name when the key is empty.
pub fn secret_key_label(secret: &SecretSummary) -> (r: String)
    ensures
        r@ == if secret.key@.len() == 0 {
            secret.name@
        } else {
            secret.key@
        },
{
    if chars_of(secret.key.as_str()).len() == 0 {
        owned(secret.name.as_str())
    } else {
        owned(secret.key.as_str())
    }
}

/// The key field uppercases what is typed.
pub fn vault_key_input(raw: &str) -> (r: String)
    ensures
        r@ == upper_seq(raw@),
{
    let v = chars_of(raw);
    let mut r = String::new();
    let mut i: usize = 0;
    while i < v.len()
        invariant
            i <= v@.len(),
            r@ == upper_seq(v@.subrange(0, i as int)),
        decreases v@.len() - i,
    {
        push_char(&mut r, char_upper(v[i]));
        proof {
            assert(upper_seq(v@.subrange(0, i + 1)) =~= upper_seq(v@.subrange(0, i as int)).push(
                upper(v@[i as int]),
            ));
        }
        i += 1;
    }
    proof {
        assert(v@.subrange(0, v@.len() as int) =~= v@);
    }
    r
}

/// The error shown when revealing fails: a hint about the step-up session
/// when the server forbade it, else the server's text.
pub open spec fn reveal_error_spec(message: Seq<char>) -> Seq<char> {
    if contains_seq(lower_seq(message), "forbidden"@) || contains_seq(lower_seq(message), "step"@) {
        "Reveal requires step-up (AAL2). Complete MFA on /account/mfa, then try again."@
    } else {
        message
    }
}

pub fn reveal_error_text(message: &str) -> (r: String)
    ensures
        r@ == reveal_error_spec(message@),
{
    let v = chars_of(message);
    let n = v.len();
    let l = lowercase_range(&v, 0, n);
    let m = l.len();
    proof {
        assert(v@.subrange(0, n as int) =~= v@);
        assert(l@.subrange(0, m as int) =~= l@);
    }
    if range_contains(&l, 0, m, "forbidden") || range_contains(&l, 0, m, "step") {
        owned("Reveal requires step-up (AAL2). Complete MFA on /account/mfa, then try again.")
    } else {
        owned(message)
    }
}

/// How long a revealed value stays shown, in milliseconds: the server's time,
/// at least five seconds, saturating.
pub open spec fn reveal_duration_spec(ttl_seconds: i64) -> u64 {
    let s: u64 = if ttl_seconds < 5 {
        5
    } else {
        ttl_seconds as u64
    };
    if s * 1000 > u64::MAX {
        u64::MAX
    } else {
        (s * 1000) as u64
    }
}

pub fn reveal_duration_ms(ttl_seconds: i64) -> (r: u64)
    ensures
        r == reveal_duration_spec(ttl_seconds),
{
    let s: u64 = if ttl_seconds < 5 {
        5
    } else {
        ttl_seconds as u64
    };
    if s > u64::MAX / 1000 {
        u64::MAX
    } else {
        s * 1000
    }
}

// ---------------------------------------------------------------------------
// The page
// ---------------------------------------------------------------------------

/// The state of the vault page.
pub struct VaultPanel {
    pub secrets: Vec<SecretSummary>,
    /// Values revealed and not yet expired, by secret id.
    pub revealed: Vec<(String, String)>,
    /// The secret whose value is being fetched.
    pub reveal_pending: Option<String>,
    /// The secret (id and key) the user asked to delete.
    pub delete_target: Option<(String, String)>,
    pub form_error: Option<String>,
    pub form_ok: Option<String>,
    /// The create dialog and its fields.
    pub create_open: bool,
    pub key: String,
    pub label: String,
    pub description: String,
    pub value: String,
    pub show_value: bool,
}

/// The create dialog's fields are as in `b`.
pub open spec fn same_dialog(a: VaultPanel, b: VaultPanel) -> bool {
    &&& a.create_open == b.create_open
    &&& a.key == b.key
    &&& a.label == b.label
    &&& a.description == b.description
    &&& a.value == b.value
    &&& a.show_value == b.show_value
}

/// The dialog is closed and its fields are empty.
pub open spec fn dialog_cleared(a: VaultPanel) -> bool {
    &&& a.key@.len() == 0
    &&& a.label@.len() == 0
    &&& a.description@.len() == 0
    &&& a.value@.len() == 0
    &&& !a.show_value
}

impl VaultPanel {
    pub fn new() -> (r: VaultPanel)
        ensures
            r.secrets@.len() == 0,
            r.revealed@.len() == 0,
            r.reveal_pending is None,
            r.delete_target is None,
            r.form_error is None,
            r.form_ok is None,
            !r.create_open,
            dialog_cleared(r),
    {
        VaultPanel {
            secrets: Vec::new(),
            revealed: Vec::new(),
            reveal_pending: None,
            delete_target: None,
            form_error: None,
            form_ok: None,
            create_open: false,
            key: String::new(),
            label: String::new(),
            description: String::new(),
            value: String::new(),
            show_value: false,
        }
    }

    /// The list arrived: it replaces the listed secrets, or its error is shown.
    pub fn list_loaded(&mut self, result: Result<Vec<SecretSummary>, String>)
        ensures
            match result {
                Ok(list) => final(self).secrets == list && final(self).form_error
                    == old(self).form_error,
                Err(e) => final(self).secrets == old(self).secrets && final(self).form_error
                    == Some(e),
            },
            final(self).revealed == old(self).revealed,
            final(self).reveal_pending == old(self).reveal_pending,
            final(self).delete_target == old(self).delete_target,
            final(self).form_ok == old(self).form_ok,
            same_dialog(*final(self), *old(self)),
    {
        match result {
            Ok(list) => {
                self.secrets = list;
            },
            Err(e) => {
                self.form_error = Some(e);
            },
        }
    }

    /// A secret was stored: it is listed (once), and the dialog closes empty.
    pub fn create_succeeded(&mut self, summary: SecretSummary)
        ensures
            lists_id(secrets_view(old(self).secrets@), summary.id@) ==> final(self).secrets
                == old(self).secrets,
            !lists_id(secrets_view(old(self).secrets@), summary.id@) ==> final(self).secrets@
                == old(self).secrets@.push(summary),
            ids_unique(secrets_view(old(self).secrets@)) ==> ids_unique(
                secrets_view(final(self).secrets@),
            ),
            !final(self).create_open,
            dialog_cleared(*final(self)),
            final(self).form_error is None,
            opt_is(final(self).form_ok, "Secret stored. Value is encrypted and hidden."@),
            final(self).revealed == old(self).revealed,
            final(self).reveal_pending == old(self).reveal_pending,
            final(self).delete_target == old(self).delete_target,
    {
        if !has_secret(&self.secrets, summary.id.as_str()) {
            let ghost before = self.secrets@;
            let ghost added = secret_view(summary);
            self.secrets.push(summary);
            proof {
                assert(secrets_view(self.secrets@) =~= secrets_view(before).push(added));
                if ids_unique(secrets_view(before)) {
                    lemma_push_unique(secrets_view(before), added);
                }
            }
        }
        self.key = String::new();
        self.label = String::new();
        self.description = String::new();
        self.value = String::new();
        self.show_value = false;
        self.create_open = false;
        self.form_error = None;
        self.form_ok = Some(owned("Secret stored. Value is encrypted and hidden."));
    }

    /// A create or delete request failed.
    pub fn action_failed(&mut self, error: String)
        ensures
            final(self).form_ok is None,
            final(self).form_error == Some(error),
            final(self).secrets == old(self).secrets,
            final(self).revealed == old(self).revealed,
            final(self).reveal_pending == old(self).reveal_pending,
            final(self).delete_target == old(self).delete_target,
            same_dialog(*final(self), *old(self)),
    {
        self.form_ok = None;
        self.form_error = Some(error);
    }

    /// The delete button of a row: remembers which secret to delete.
    pub fn ask_delete(&mut self, id: String, key_label: String)
        ensures
            final(self).form_ok is None,
            final(self).delete_target == Some((id, key_label)),
            final(self).form_error == old(self).form_error,
            final(self).secrets == old(self).secrets,
            final(self).revealed == old(self).revealed,
            final(self).reveal_pending == old(self).reveal_pending,
            same_dialog(*final(self), *old(self)),
    {
        self.form_ok = None;
        self.delete_target = Some((id, key_label));
    }

    /// The secret asked for was deleted: it leaves the list and its revealed value.
    pub fn delete_succeeded(&mut self)
        ensures
            match old(self).delete_target {
                Some(t) => {
                    &&& secrets_view(final(self).secrets@) == secrets_without(
                        secrets_view(old(self).secrets@),
                        t.0@,
                    )
                    &&& forall|k: Seq<char>|
                        #[trigger] revealed_lookup(final(self).revealed@, k) == if k == t.0@ {
                            None
                        } else {
                            revealed_lookup(old(self).revealed@, k)
                        }
                },
                None => final(self).secrets == old(self).secrets && final(self).revealed
                    == old(self).revealed,
            },
            ids_unique(secrets_view(old(self).secrets@)) ==> ids_unique(
                secrets_view(final(self).secrets@),
            ),
            final(self).delete_target is None,
            final(self).form_error is None,
            opt_is(final(self).form_ok, "Secret deleted."@),
            final(self).reveal_pending == old(self).reveal_pending,
            same_dialog(*final(self), *old(self)),
    {
        match &self.delete_target {
            Some(t) => {
                proof {
                    lemma_without_unique(secrets_view(self.secrets@), t.0@);
                }
                let kept = secrets_other_than(&self.secrets, t.0.as_str());
                let shown = without_entry(&self.revealed, t.0.as_str());
                self.secrets = kept;
                self.revealed = shown;
            },
            None => {},
        }
        self.delete_target = None;
        self.form_error = None;
        self.form_ok = Some(owned("Secret deleted."));
    }

    /// The eye button of a row: the value of `id` is being fetched.
    pub fn start_reveal(&mut self, id: String)
        ensures
            final(self).reveal_pending == Some(id),
            final(self).secrets == old(self).secrets,
            final(self).revealed == old(self).revealed,
            final(self).delete_target == old(self).delete_target,
            final(self).form_error == old(self).form_error,
            final(self).form_ok == old(self).form_ok,
            same_dialog(*final(self), *old(self)),
    {
        self.reveal_pending = Some(id);
    }

    /// A value arrived: it is shown for its secret, and the result is how long
    /// to wait before `reveal_expired`.
    pub fn reveal_succeeded(&mut self, response: SecretRevealResponse) -> (r: u64)
        ensures
            r == reveal_duration_spec(response.reveal_ttl_seconds),
            forall|k: Seq<char>|
                #[trigger] revealed_lookup(final(self).revealed@, k) == if k == response.id@ {
                    Some(response.value@)
                } else {
                    revealed_lookup(old(self).revealed@, k)
                },
            final(self).reveal_pending is None,
            final(self).form_error is None,
            final(self).form_ok == old(self).form_ok,
            final(self).secrets == old(self).secrets,
            final(self).delete_target == old(self).delete_target,
            same_dialog(*final(self), *old(self)),
    {
        let r = reveal_duration_ms(response.reveal_ttl_seconds);
        let mut shown = without_entry(&self.revealed, response.id.as_str());
        let ghost before = shown@;
        shown.push((response.id, response.value));
        proof {
            assert(shown@.drop_last() =~= before);
            assert forall|k: Seq<char>| #[trigger]
                revealed_lookup(shown@, k) == if k == response.id@ {
                    Some(response.value@)
                } else {
                    revealed_lookup(old(self).revealed@, k)
                } by {
                assert(revealed_lookup(before, k) == if k == response.id@ {
                    None
                } else {
                    revealed_lookup(old(self).revealed@, k)
                });
            }
        }
        self.revealed = shown;
        self.reveal_pending = None;
        self.form_error = None;
        r
    }

    /// The time to show the value of `id` is over.
    pub fn reveal_expired(&mut self, id: &str)
        ensures
            forall|k: Seq<char>|
                #[trigger] revealed_lookup(final(self).revealed@, k) == if k == id@ {
                    None
                } else {
                    revealed_lookup(old(self).revealed@, k)
                },
            final(self).reveal_pending == old(self).reveal_pending,
            final(self).form_error == old(self).form_error,
            final(self).form_ok == old(self).form_ok,
            final(self).secrets == old(self).secrets,
            final(self).delete_target == old(self).delete_target,
            same_dialog(*final(self), *old(self)),
    {
        let shown = without_entry(&self.revealed, id);
        self.revealed = shown;
    }

    /// Revealing failed.
    pub fn reveal_failed(&mut self, message: &str)
        ensures
            final(self).reveal_pending is None,
            opt_is(final(self).form_error, reveal_error_spec(message@)),
            final(self).form_ok == old(self).form_ok,
            final(self).secrets == old(self).secrets,
            final(self).revealed == old(self).revealed,
            final(self).delete_target == old(self).delete_target,
            same_dialog(*final(self), *old(self)),
    {
        self.reveal_pending = None;
        self.form_error = Some(reveal_error_text(message));
    }

    /// The demo connectors were loaded.
    pub fn demos_seeded(&mut self)
        ensures
            opt_is(
                final(self).form_ok,
                "Demo connectors seeded. Open the dashboard to see bound widgets."@,
            ),
            final(self).form_error is None,
            final(self).secrets == old(self).secrets,
            final(self).revealed == old(self).revealed,
            final(self).reveal_pending == old(self).reveal_pending,
            final(self).delete_target == old(self).delete_target,
            same_dialog(*final(self), *old(self)),
    {
        self.form_ok = Some(owned("Demo connectors seeded. Open the dashboard to see bound widgets."));
        self.form_error = None;
    }

    /// "Add secret": an empty dialog, and no status lines.
    pub fn open_create(&mut self)
        ensures
            final(self).create_open,
            dialog_cleared(*final(self)),
            final(self).form_error is None,
            final(self).form_ok is None,
            final(self).secrets == old(self).secrets,
            final(self).revealed == old(self).revealed,
            final(self).reveal_pending == old(self).reveal_pending,
            final(self).delete_target == old(self).delete_target,
    {
        self.form_error = None;
        self.form_ok = None;
        self.key = String::new();
        self.label = String::new();
        self.description = String::new();
        self.value = String::new();
        self.show_value = false;
        self.create_open = true;
    }

    /// Typing in the key field.
    pub fn edit_key(&mut self, raw: &str)
        ensures
            final(self).key@ == upper_seq(raw@),
            final(self).create_open == old(self).create_open,
            final(self).label == old(self).label,
            final(self).description == old(self).description,
            final(self).value == old(self).value,
            final(self).show_value == old(self).show_value,
            final(self).form_error == old(self).form_error,
            final(self).form_ok == old(self).form_ok,
            final(self).secrets == old(self).secrets,
            final(self).revealed == old(self).revealed,
            final(self).reveal_pending == old(self).reveal_pending,
            final(self).delete_target == old(self).delete_target,
    {
        self.key = vault_key_input(raw);
    }

    /// "Store secret": the request to send, a user-scoped secret named by its
    /// key; the status lines are cleared.
    pub fn create_request(&mut self) -> (r: SecretCreateRequest)
        ensures
            r.key@ == old(self).key@,
            r.name@ == old(self).key@,
            r.value@ == old(self).value@,
            r.label@ == old(self).label@,
            r.description@ == old(self).description@,
            r.scope@ == "user"@,
            final(self).form_error is None,
            final(self).form_ok is None,
            final(self).secrets == old(self).secrets,
            final(self).revealed == old(self).revealed,
            final(self).reveal_pending == old(self).reveal_pending,
            final(self).delete_target == old(self).delete_target,
            same_dialog(*final(self), *old(self)),
    {
        self.form_ok = None;
        self.form_error = None;
        SecretCreateRequest {
            key: owned(self.key.as_str()),
            name: owned(self.key.as_str()),
            value: owned(self.value.as_str()),
            label: owned(self.label.as_str()),
            description: owned(self.description.as_str()),
            scope: owned("user"),
        }
    }

    /// The value shown for `id`, if it is revealed.
    pub fn revealed_value(&self, id: &str) -> (r: Option<String>)
        ensures
            match revealed_lookup(self.revealed@, id@) {
                Some(t) => r matches Some(x) && x@ == t,
                None => r is None,
            },
    {
        let mut i = self.revealed.len();
        proof {
            assert(self.revealed@.subrange(0, i as int) =~= self.revealed@);
        }
        while i > 0
            invariant
                i <= self.revealed@.len(),
                revealed_lookup(self.revealed@, id@) == revealed_lookup(
                    self.revealed@.subrange(0, i as int),
                    id@,
                ),
            decreases i,
        {
            let ghost w = self.revealed@.subrange(0, i as int);
            proof {
                assert(w.drop_last() =~= self.revealed@.subrange(0, i - 1));
                assert(w.last() == self.revealed@[i - 1]);
            }
            if str_eq(self.revealed[i - 1].0.as_str(), id) {
                return Some(owned(self.revealed[i - 1].1.as_str()));
            }
            i -= 1;
        }
        None
    }

    /// Whether a row's eye button is disabled: while its own value, or any
    /// value, is being fetched.
    pub fn reveal_disabled(&self, id: &str, reveal_pending: bool) -> (r: bool)
        ensures
            r == (reveal_pending || (self.reveal_pending matches Some(p) && p@ == id@)),
    {
        if reveal_pending {
            return true;
        }
        match &self.reveal_pending {
            Some(p) => str_eq(p.as_str(), id),
            None => false,
        }
    }
}

} // verus!
