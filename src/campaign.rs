use crate::address::keys_equal;
use vstd::prelude::*;

verus! {

/// The ways an operation on a campaign fails. Every failure leaves the
/// campaign as it was.
#[derive(Debug, Clone, Copy, PartialEq, Eq, Structural)]
pub enum CampaignError {
    /// A campaign record already exists at the derived address.
    AlreadyInitialized,
    /// The caller did not sign, or is not the campaign's administrator.
    Unauthorized,
    /// The withdrawal would take the custodied balance below the reserve,
    /// or the donor holds less than the donation.
    InsufficientFunds,
    /// The platform rejected the transfer of a donation.
    TransferFailed,
    /// No program derived address exists for the administrator's key.
    AddressUnavailable,
    /// The name and description do not fit in the record's storage.
    RecordTooLarge,
    /// A balance or the donation total would exceed `u64::MAX`.
    Overflow,
}

/// The persistent campaign record.
pub struct Campaign {
    /// The only key allowed to withdraw; set at creation, never changed.
    pub admin: [u8; 32],
    pub name: String,
    pub description: String,
    /// The total of all successful donations.
    pub amount_donated: u64,
}

/// A campaign record together with the ledger account that holds it.
pub struct CampaignAccount {
    /// The program derived address of the record.
    pub address: [u8; 32],
    /// The custodied balance of the account.
    pub lamports: u64,
    pub campaign: Campaign,
}

/// The account of the caller of an operation.
pub struct Signer {
    pub key: [u8; 32],
    /// Whether the transaction carries this key's signature.
    pub is_signer: bool,
    pub lamports: u64,
}

/// The accounts that a donation reads and changes.
pub struct Donate {
    pub campaign: CampaignAccount,
    pub user: Signer,
}

/// The accounts that a withdrawal reads and changes.
pub struct Withdraw {
    pub campaign: CampaignAccount,
    pub user: Signer,
}

/// Whether the campaign's balance and donation total can both grow by
/// `amount` within `u64`.
pub open spec fn donation_fits(c: CampaignAccount, amount: u64) -> bool {
    c.lamports + amount <= u64::MAX && c.campaign.amount_donated + amount <= u64::MAX
}

/// The result of a donation of `amount` to `campaign` by `user`, where
/// `transferred` tells whether the platform moved the funds.
pub open spec fn donate_outcome(
    campaign: CampaignAccount,
    user: Signer,
    amount: u64,
    transferred: bool,
) -> Result<(), CampaignError> {
    if !user.is_signer {
        Err(CampaignError::Unauthorized)
    } else if !transferred {
        Err(CampaignError::TransferFailed)
    } else if user.lamports < amount {
        Err(CampaignError::InsufficientFunds)
    } else if !donation_fits(campaign, amount) {
        Err(CampaignError::Overflow)
    } else {
        Ok(())
    }
}

/// The campaign account after a donation of `amount` has been received.
pub open spec fn donated(c: CampaignAccount, amount: u64) -> CampaignAccount {
    CampaignAccount {
        address: c.address,
        lamports: (c.lamports + amount) as u64,
        campaign: Campaign {
            admin: c.campaign.admin,
            name: c.campaign.name,
            description: c.campaign.description,
            amount_donated: (c.campaign.amount_donated + amount) as u64,
        },
    }
}

/// Records a donation of `amount` from `ctx.user` to `ctx.campaign`: the
/// amount leaves the donor's account and joins the campaign's balance and
/// its donation total. `transferred` is the platform's report on the
/// transfer of `amount` from the donor's account to the campaign's: nothing
/// changes unless the transfer went through.
pub fn donate(ctx: &mut Donate, amount: u64, transferred: bool) -> (r: Result<(), CampaignError>)
    ensures
        r == donate_outcome(old(ctx).campaign, old(ctx).user, amount, transferred),
        r is Ok ==> final(ctx).campaign == donated(old(ctx).campaign, amount),
        r is Ok ==> final(ctx).user.lamports == old(ctx).user.lamports - amount,
        r is Ok ==> final(ctx).user.key == old(ctx).user.key,
        r is Ok ==> final(ctx).user.is_signer == old(ctx).user.is_signer,
        r is Err ==> *final(ctx) == *old(ctx),
        !transferred ==> *final(ctx) == *old(ctx),
        old(ctx).user.is_signer && transferred && old(ctx).user.lamports >= amount
            && donation_fits(old(ctx).campaign, amount) ==> r is Ok,
{
    if !ctx.user.is_signer {
        return Err(CampaignError::Unauthorized);
    }
    if !transferred {
        return Err(CampaignError::TransferFailed);
    }
    if ctx.user.lamports < amount {
        return Err(CampaignError::InsufficientFunds);
    }
    let lamports = match ctx.campaign.lamports.checked_add(amount) {
        Some(v) => v,
        None => return Err(CampaignError::Overflow),
    };
    let total = match ctx.campaign.campaign.amount_donated.checked_add(amount) {
        Some(v) => v,
        None => return Err(CampaignError::Overflow),
    };
    ctx.campaign.lamports = lamports;
    ctx.campaign.campaign.amount_donated = total;
    ctx.user.lamports = ctx.user.lamports - amount;
    Ok(())
}

/// The result of a withdrawal of `amount` from `campaign` by `user`, where
/// `reserve` is the balance that the record's storage requires to remain.
pub open spec fn withdraw_outcome(
    campaign: CampaignAccount,
    user: Signer,
    amount: u64,
    reserve: u64,
) -> Result<(), CampaignError> {
    if !user.is_signer || user.key@ != campaign.campaign.admin@ {
        Err(CampaignError::Unauthorized)
    } else if campaign.lamports - amount < reserve {
        Err(CampaignError::InsufficientFunds)
    } else if user.lamports + amount > u64::MAX {
        Err(CampaignError::Overflow)
    } else {
        Ok(())
    }
}

/// Moves `amount` from the campaign's account to its administrator's.
/// `reserve` is the minimum balance that the platform currently requires of
/// the record's account; it is read afresh for each withdrawal.
pub fn withdraw(ctx: &mut Withdraw, amount: u64, reserve: u64) -> (r: Result<(), CampaignError>)
    ensures
        r == withdraw_outcome(old(ctx).campaign, old(ctx).user, amount, reserve),
        r is Ok ==> final(ctx).campaign.lamports == old(ctx).campaign.lamports - amount,
        r is Ok ==> final(ctx).user.lamports == old(ctx).user.lamports + amount,
        r is Ok ==> final(ctx).campaign.campaign == old(ctx).campaign.campaign,
        r is Ok ==> final(ctx).campaign.address == old(ctx).campaign.address,
        r is Ok ==> final(ctx).user.key == old(ctx).user.key,
        r is Ok ==> final(ctx).user.is_signer == old(ctx).user.is_signer,
        r is Err ==> *final(ctx) == *old(ctx),
        old(ctx).user.key@ != old(ctx).campaign.campaign.admin@ ==> r == Err::<(), CampaignError>(
            CampaignError::Unauthorized,
        ) && *final(ctx) == *old(ctx),
        old(ctx).user.is_signer && old(ctx).user.key@ == old(ctx).campaign.campaign.admin@
            && old(ctx).campaign.lamports - amount < reserve ==> r == Err::<(), CampaignError>(
            CampaignError::InsufficientFunds,
        ),
        old(ctx).user.is_signer && old(ctx).user.key@ == old(ctx).campaign.campaign.admin@
            && old(ctx).campaign.lamports - amount >= reserve && old(ctx).user.lamports + amount
            <= u64::MAX ==> r is Ok,
{
    if !ctx.user.is_signer || !keys_equal(&ctx.user.key, &ctx.campaign.campaign.admin) {
        return Err(CampaignError::Unauthorized);
    }
    if ctx.campaign.lamports < reserve || ctx.campaign.lamports - reserve < amount {
        return Err(CampaignError::InsufficientFunds);
    }
    let credited = match ctx.user.lamports.checked_add(amount) {
        Some(v) => v,
        None => return Err(CampaignError::Overflow),
    };
    ctx.campaign.lamports = ctx.campaign.lamports - amount;
    ctx.user.lamports = credited;
    Ok(())
}

/// The sum of `amounts`.
pub open spec fn sum(amounts: Seq<u64>) -> int
    decreases amounts.len(),
{
    if amounts.len() == 0 {
        0
    } else {
        sum(amounts.drop_last()) + amounts.last()
    }
}

/// The campaign after successful donations of `amounts`, in this order;
/// `None` where one of them would overflow.
pub open spec fn donated_all(c: CampaignAccount, amounts: Seq<u64>) -> Option<CampaignAccount>
    decreases amounts.len(),
{
    if amounts.len() == 0 {
        Some(c)
    } else {
        match donated_all(c, amounts.drop_last()) {
            Some(d) => if donation_fits(d, amounts.last()) {
                Some(donated(d, amounts.last()))
            } else {
                None
            },
            None => None,
        }
    }
}

/// The campaign after donations that add up to `total`, or `None` where
/// its balance or donation total would then exceed `u64::MAX`.
pub open spec fn donated_total(c: CampaignAccount, total: int) -> Option<CampaignAccount> {
    if c.lamports + total <= u64::MAX && c.campaign.amount_donated + total <= u64::MAX {
        Some(
            CampaignAccount {
                address: c.address,
                lamports: (c.lamports + total) as u64,
                campaign: Campaign {
                    admin: c.campaign.admin,
                    name: c.campaign.name,
                    description: c.campaign.description,
                    amount_donated: (c.campaign.amount_donated + total) as u64,
                },
            },
        )
    } else {
        None
    }
}

/// A successful donation extends a run: after the donations `amounts`, a
/// further donation of `amount` that `donate` accepts leaves the campaign
/// that the run `amounts.push(amount)` describes.
pub proof fn lemma_donation_extends_run(
    c: CampaignAccount,
    amounts: Seq<u64>,
    d: CampaignAccount,
    user: Signer,
    amount: u64,
)
    requires
        donated_all(c, amounts) == Some(d),
        donate_outcome(d, user, amount, true) is Ok,
    ensures
        donated_all(c, amounts.push(amount)) == Some(donated(d, amount)),
{
    assert(amounts.push(amount).drop_last() =~= amounts);
}

proof fn lemma_sum_nonnegative(amounts: Seq<u64>)
    ensures
        sum(amounts) >= 0,
    decreases amounts.len(),
{
    if amounts.len() > 0 {
        lemma_sum_nonnegative(amounts.drop_last());
    }
}

/// A run of successful donations leaves the campaign as one donation of
/// their sum would: the balance and the donation total each grow by exactly
/// the sum, and the run succeeds exactly when both stay within `u64`.
pub proof fn lemma_donations_add_up(c: CampaignAccount, amounts: Seq<u64>)
    ensures
        donated_all(c, amounts) == donated_total(c, sum(amounts)),
    decreases amounts.len(),
{
    if amounts.len() > 0 {
        lemma_donations_add_up(c, amounts.drop_last());
        lemma_sum_nonnegative(amounts.drop_last());
    }
}

proof fn lemma_sum_concat(a: Seq<u64>, b: Seq<u64>)
    ensures
        sum(a + b) == sum(a) + sum(b),
    decreases b.len(),
{
    if b.len() > 0 {
        assert((a + b).drop_last() =~= a + b.drop_last());
        lemma_sum_concat(a, b.drop_last());
    }
}

proof fn lemma_sum_single(x: u64)
    ensures
        sum(seq![x]) == x,
{
    assert(seq![x].drop_last() =~= Seq::<u64>::empty());
    assert(sum(Seq::<u64>::empty()) == 0);
    assert(seq![x].last() == x);
}

proof fn lemma_sum_remove(s: Seq<u64>, k: int)
    requires
        0 <= k < s.len(),
    ensures
        sum(s) == sum(s.remove(k)) + s[k],
{
    let front = s.subrange(0, k);
    let back = s.subrange(k + 1, s.len() as int);
    assert(s =~= front + seq![s[k]] + back);
    assert(s.remove(k) =~= front + back);
    lemma_sum_concat(front + seq![s[k]], back);
    lemma_sum_concat(front, seq![s[k]]);
    lemma_sum_concat(front, back);
    lemma_sum_single(s[k]);
}

proof fn lemma_sum_permutation(s1: Seq<u64>, s2: Seq<u64>)
    requires
        s1.to_multiset() == s2.to_multiset(),
    ensures
        sum(s1) == sum(s2),
    decreases s1.len(),
{
    broadcast use vstd::seq_lib::group_to_multiset_ensures;

    if s1.len() == 0 {
        assert(s2.to_multiset().len() == 0);
        assert(s2 =~= Seq::<u64>::empty());
    } else {
        let x = s1.last();
        let init = s1.drop_last();
        assert(s1 =~= init.push(x));
        assert(s1.to_multiset().count(x) > 0);
        assert(s2.contains(x));
        let k = choose|k: int| 0 <= k < s2.len() && s2[k] == x;
        assert(init.to_multiset() =~= s1.to_multiset().remove(x));
        assert(s2.remove(k).to_multiset() == s2.to_multiset().remove(x));
        lemma_sum_permutation(init, s2.remove(k));
        lemma_sum_remove(s2, k);
    }
}

/// Donations accumulate regardless of their order: any two runs of the same
/// amounts, in whatever order, leave the same campaign, and one succeeds
/// exactly when the other does.
pub proof fn lemma_donations_any_order(c: CampaignAccount, amounts: Seq<u64>, reordered: Seq<u64>)
    requires
        amounts.to_multiset() == reordered.to_multiset(),
    ensures
        donated_all(c, amounts) == donated_all(c, reordered),
{
    lemma_sum_permutation(amounts, reordered);
    lemma_donations_add_up(c, amounts);
    lemma_donations_add_up(c, reordered);
}

} // verus!
