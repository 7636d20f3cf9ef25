//! Cross-cutting guarantees of the store and the token layer, stated and
//! proved over the same views the operation contracts use.

use vstd::prelude::*;

use crate::form::FormModel;
use crate::respondent::RespondentModel;
use crate::store::{
    count_for_form, spec_find_form, spec_find_resp, spec_find_sub, spec_find_user, token_live,
    Store,
};
use crate::submission::SubmissionRecord;
use crate::user::UserModel;
use crate::user_service::claims_authenticate;
use crate::util::lemma_find_first_push_fresh;
use crate::jwt::Claims;

verus! {

/// A sequence with no record of `form_id` counts zero for it.
proof fn lemma_count_none(subs: Seq<SubmissionRecord>, form_id: u64)
    requires
        forall|k: int| 0 <= k < subs.len() ==> (#[trigger] subs[k]).form_id != form_id,
    ensures
        count_for_form(subs, form_id) == 0,
    decreases subs.len(),
{
    if subs.len() > 0 {
        lemma_count_none(subs.drop_last(), form_id);
    }
}

/// Removing one record lowers the count exactly when the record belongs
/// to the form.
proof fn lemma_count_remove(subs: Seq<SubmissionRecord>, form_id: u64, k: int)
    requires
        0 <= k < subs.len(),
    ensures
        count_for_form(subs.remove(k), form_id) == count_for_form(subs, form_id) - (if subs[k].form_id
            == form_id {
            1int
        } else {
            0int
        }),
    decreases subs.len(),
{
    if k == subs.len() - 1 {
        assert(subs.remove(k) =~= subs.drop_last());
    } else {
        assert(subs.remove(k).drop_last() =~= subs.drop_last().remove(k));
        assert(subs.remove(k).last() == subs.last());
        assert(subs.drop_last()[k] == subs[k]);
        lemma_count_remove(subs.drop_last(), form_id, k);
    }
}

/// Distinct 1-based positions bounded by `m` admit at most `m` records:
/// the pigeonhole behind the capacity bound.
proof fn lemma_count_bounded(subs: Seq<SubmissionRecord>, form_id: u64, m: nat)
    requires
        forall|k: int|
            0 <= k < subs.len() && (#[trigger] subs[k]).form_id == form_id ==> 1 <= subs[k].sub_order
                <= m,
        forall|a: int, b: int|
            0 <= a < b < subs.len() && (#[trigger] subs[a]).form_id == form_id && (
            #[trigger] subs[b]).form_id == form_id ==> subs[a].sub_order != subs[b].sub_order,
    ensures
        count_for_form(subs, form_id) <= m,
    decreases m,
{
    if m == 0 {
        lemma_count_none(subs, form_id);
    } else if exists|k: int|
        0 <= k < subs.len() && (#[trigger] subs[k]).form_id == form_id && subs[k].sub_order == m {
        let k = choose|k: int|
            0 <= k < subs.len() && (#[trigger] subs[k]).form_id == form_id && subs[k].sub_order
                == m;
        let rest = subs.remove(k);
        lemma_count_remove(subs, form_id, k);
        assert forall|j: int|
            0 <= j < rest.len() && (#[trigger] rest[j]).form_id == form_id implies 1
            <= rest[j].sub_order <= m - 1 by {
            if j < k {
                assert(rest[j] == subs[j]);
            } else {
                assert(rest[j] == subs[j + 1]);
            }
        }
        assert forall|a: int, b: int|
            0 <= a < b < rest.len() && (#[trigger] rest[a]).form_id == form_id && (
        #[trigger] rest[b]).form_id == form_id implies rest[a].sub_order != rest[b].sub_order by {
            let oa: int = if a < k {
                a
            } else {
                a + 1
            };
            let ob: int = if b < k {
                b
            } else {
                b + 1
            };
            assert(rest[a] == subs[oa]);
            assert(rest[b] == subs[ob]);
        }
        lemma_count_bounded(rest, form_id, (m - 1) as nat);
    } else {
        assert forall|k: int|
            0 <= k < subs.len() && (#[trigger] subs[k]).form_id == form_id implies 1
            <= subs[k].sub_order <= m - 1 by {}
        lemma_count_bounded(subs, form_id, (m - 1) as nat);
    }
}

/// A form never holds more submissions than its capacity.  With the
/// check-and-insert done under one exclusive borrow, no interleaving of
/// registrations can overshoot it.
pub proof fn lemma_capacity_never_exceeded(s: Store, form: FormModel)
    requires
        s.wf(),
        spec_find_form(s.forms_view(), form.id) == Some(form),
    ensures
        count_for_form(s.subs_view(), form.id) <= form.limit,
{
    crate::util::lemma_find_first_characterize(s.forms_view(), |f: FormModel| f.id == form.id);
    let i = choose|i: int| 0 <= i < s.forms_view().len() && s.forms_view()[i] == form;
    assert forall|k: int|
        0 <= k < s.subs_view().len() && (#[trigger] s.subs_view()[k]).form_id == form.id implies 1
        <= s.subs_view()[k].sub_order <= form.limit by {
        assert(s.subs_view()[k].sub_order <= s.forms_view()[i].limit);
    }
    lemma_count_bounded(s.subs_view(), form.id, form.limit as nat);
}

/// A token superseded by a re-login under the same device label no
/// longer authenticates, even though it is cryptographically unexpired:
/// the live set after the re-login holds the new token and tokens under
/// other labels only.
pub proof fn lemma_superseded_token_rejected(
    s_old: Store,
    s_new: Store,
    user_id: u64,
    label: Seq<char>,
    t_old: Seq<char>,
    t_new: Seq<char>,
    c: Claims,
)
    requires
        // how the re-login left the live set, as `login_finish` ensures it
        forall|t2: Seq<char>|
            #[trigger] token_live(s_new.tokens_view(), user_id, t2) <==> (t2 == t_new || exists|
                j: int,
            |
                0 <= j < s_old.tokens_view().len() && (#[trigger] s_old.tokens_view()[j]).user_id
                    == user_id && s_old.tokens_view()[j].token == t2
                    && s_old.tokens_view()[j].used_for != label),
        // the superseded token was held under that label only
        forall|j: int|
            0 <= j < s_old.tokens_view().len() && (#[trigger] s_old.tokens_view()[j]).user_id
                == user_id && s_old.tokens_view()[j].token == t_old ==> s_old.tokens_view()[j].used_for
                == label,
        t_old != t_new,
        c.sub == user_id,
    ensures
        !token_live(s_new.tokens_view(), user_id, t_old),
        !claims_authenticate(s_new, c, t_old),
{
    assert(!token_live(s_new.tokens_view(), user_id, t_old));
}

/// Logout removes exactly the named token and no others: afterwards the
/// named token no longer authenticates its subject, and every other
/// (user, token) pair is as live as before.
pub proof fn lemma_logout_removes_exactly(
    s_old: Store,
    s_new: Store,
    user_id: u64,
    token: Seq<char>,
    c: Claims,
)
    requires
        // how the removal left the live set, as `revoke_for_user` ensures it
        crate::auth_service::revoked_exactly(
            s_old.tokens_view(),
            s_new.tokens_view(),
            user_id,
            token,
        ),
        c.sub == user_id,
    ensures
        !token_live(s_new.tokens_view(), user_id, token),
        !claims_authenticate(s_new, c, token),
        forall|u: u64, t: Seq<char>|
            !(u == user_id && t == token) ==> (#[trigger] token_live(s_new.tokens_view(), u, t)
                <==> token_live(s_old.tokens_view(), u, t)),
{
    assert(!token_live(s_new.tokens_view(), user_id, token));
}

/// Read after write: a form created with a fresh id is found again,
/// field for field.
pub proof fn lemma_read_after_create_form(s_old: Store, s_new: Store, f: FormModel)
    requires
        s_old.wf(),
        f.id == s_old.spec_next_id(),
        s_new.forms_view() == s_old.forms_view().push(f),
    ensures
        spec_find_form(s_new.forms_view(), f.id) == Some(f),
{
    lemma_find_first_push_fresh(s_old.forms_view(), |x: FormModel| x.id == f.id, f);
}

/// Read after write: a respondent created with a fresh id is found
/// again, field for field.
pub proof fn lemma_read_after_create_respondent(s_old: Store, s_new: Store, r: RespondentModel)
    requires
        s_old.wf(),
        r.id == s_old.spec_next_id(),
        s_new.resps_view() == s_old.resps_view().push(r),
    ensures
        spec_find_resp(s_new.resps_view(), r.id) == Some(r),
{
    lemma_find_first_push_fresh(s_old.resps_view(), |x: RespondentModel| x.id == r.id, r);
}

/// Read after write: a submission created with a fresh id is found
/// again, field for field.
pub proof fn lemma_read_after_create_submission(s_old: Store, s_new: Store, rec: SubmissionRecord)
    requires
        s_old.wf(),
        rec.id == s_old.spec_next_id(),
        s_new.subs_view() == s_old.subs_view().push(rec),
    ensures
        spec_find_sub(s_new.subs_view(), rec.id) == Some(rec),
{
    lemma_find_first_push_fresh(s_old.subs_view(), |x: SubmissionRecord| x.id == rec.id, rec);
}

/// Read after write: an account created with a fresh id is found again,
/// field for field.
pub proof fn lemma_read_after_create_user(s_old: Store, s_new: Store, u: UserModel)
    requires
        s_old.wf(),
        u.id == s_old.spec_next_id(),
        s_new.users_view() == s_old.users_view().push(u),
    ensures
        spec_find_user(s_new.users_view(), u.id) == Some(u),
{
    lemma_find_first_push_fresh(s_old.users_view(), |x: UserModel| x.id == u.id, u);
}

} // verus!
