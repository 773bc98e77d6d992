use crate::address::{campaign_address, campaign_address_of, keys_equal};
use crate::campaign::{Campaign, CampaignAccount, CampaignError, Signer};
use vstd::prelude::*;
use vstd::utf8::encode_utf8;

verus! {

/// The storage, in bytes, allocated to each campaign record.
pub const CAMPAIGN_SPACE: usize = 9000;

/// The bytes of a record besides its name and description: an 8-byte
/// account discriminator, the 32-byte administrator key, the two 4-byte
/// length prefixes and the 8-byte donation total.
pub const RECORD_OVERHEAD: usize = 56;

/// Whether a record with this name and description fits in its storage.
pub open spec fn record_fits(name: Seq<char>, description: Seq<char>) -> bool {
    RECORD_OVERHEAD + encode_utf8(name).len() + encode_utf8(description).len() <= CAMPAIGN_SPACE
}

/// The addresses at which the program holds campaign records.
pub struct Ledger {
    program_id: [u8; 32],
    addresses: Vec<[u8; 32]>,
}

/// The accounts that a creation reads: the caller, who becomes the
/// administrator and pays for the storage, and the balance put into the new
/// record's account.
pub struct Create {
    pub user: Signer,
    pub deposit: u64,
}

impl Ledger {
    /// The key of the program that owns the records.
    pub closed spec fn program(&self) -> Seq<u8> {
        self.program_id@
    }

    /// The addresses that hold a record.
    pub closed spec fn allocated(&self) -> Set<Seq<u8>> {
        Set::new(
            |a: Seq<u8>| exists|i: int| 0 <= i < self.addresses@.len() && self.addresses@[i]@ == a,
        )
    }

    /// A ledger of the program `program_id` that holds no record.
    pub fn new(program_id: [u8; 32]) -> (r: Self)
        ensures
            r.program() == program_id@,
            r.allocated() == Set::<Seq<u8>>::empty(),
    {
        let r = Ledger { program_id, addresses: Vec::new() };
        assert(r.allocated() =~= Set::<Seq<u8>>::empty());
        r
    }

    pub fn program_id(&self) -> (r: [u8; 32])
        ensures
            r@ == self.program(),
    {
        self.program_id
    }

    /// Whether a record exists at `address`.
    pub fn is_allocated(&self, address: &[u8; 32]) -> (r: bool)
        ensures
            r == self.allocated().contains(address@),
    {
        let mut i: usize = 0;
        while i < self.addresses.len()
            invariant
                i <= self.addresses@.len(),
                forall|j: int| 0 <= j < i ==> self.addresses@[j]@ != address@,
            decreases self.addresses@.len() - i,
        {
            if keys_equal(&self.addresses[i], address) {
                return true;
            }
            i = i + 1;
        }
        false
    }

    fn allocate(&mut self, address: [u8; 32])
        ensures
            final(self).program() == old(self).program(),
            final(self).allocated() == old(self).allocated().insert(address@),
    {
        self.addresses.push(address);
        assert(self.allocated() =~= old(self).allocated().insert(address@)) by {
            assert(self.addresses@[self.addresses@.len() - 1] == address);
            assert forall|a: Seq<u8>| old(self).allocated().contains(a) implies #[trigger] self.allocated().contains(a) by {
                let i = choose|i: int|
                    0 <= i < old(self).addresses@.len() && old(self).addresses@[i]@ == a;
                assert(self.addresses@[i] == old(self).addresses@[i]);
            }
        }
    }
}

/// The address of the record that a creation by `user` makes, or the
/// error that it fails with.
pub open spec fn create_outcome(
    allocated: Set<Seq<u8>>,
    program: Seq<u8>,
    user: Signer,
    name: Seq<char>,
    description: Seq<char>,
) -> Result<Seq<u8>, CampaignError> {
    if !user.is_signer {
        Err(CampaignError::Unauthorized)
    } else {
        match campaign_address_of(user.key@, program) {
            None => Err(CampaignError::AddressUnavailable),
            Some(a) => if allocated.contains(a) {
                Err(CampaignError::AlreadyInitialized)
            } else if !record_fits(name, description) {
                Err(CampaignError::RecordTooLarge)
            } else {
                Ok(a)
            },
        }
    }
}

/// Creates the campaign record of `ctx.user` at the address derived from
/// its key, with `ctx.user` as administrator and no donation yet, and
/// returns the new account.
pub fn create(ledger: &mut Ledger, ctx: &Create, name: String, description: String) -> (r: Result<
    CampaignAccount,
    CampaignError,
>)
    ensures
        final(ledger).program() == old(ledger).program(),
        match r {
            Ok(account) => {
                &&& create_outcome(
                    old(ledger).allocated(),
                    old(ledger).program(),
                    ctx.user,
                    name@,
                    description@,
                ) == Ok::<Seq<u8>, CampaignError>(account.address@)
                &&& final(ledger).allocated() == old(ledger).allocated().insert(account.address@)
                &&& account.lamports == ctx.deposit
                &&& account.campaign.admin == ctx.user.key
                &&& account.campaign.name == name
                &&& account.campaign.description == description
                &&& account.campaign.amount_donated == 0
            },
            Err(e) => {
                &&& create_outcome(
                    old(ledger).allocated(),
                    old(ledger).program(),
                    ctx.user,
                    name@,
                    description@,
                ) == Err::<Seq<u8>, CampaignError>(e)
                &&& final(ledger).allocated() == old(ledger).allocated()
            },
        },
{
    if !ctx.user.is_signer {
        return Err(CampaignError::Unauthorized);
    }
    let program_id = ledger.program_id();
    let address = match campaign_address(&ctx.user.key, &program_id) {
        Some(a) => a,
        None => return Err(CampaignError::AddressUnavailable),
    };
    if ledger.is_allocated(&address) {
        return Err(CampaignError::AlreadyInitialized);
    }
    let name_len = name.as_str().as_bytes().len();
    let description_len = description.as_str().as_bytes().len();
    if name_len > CAMPAIGN_SPACE - RECORD_OVERHEAD || description_len > CAMPAIGN_SPACE
        - RECORD_OVERHEAD - name_len {
        return Err(CampaignError::RecordTooLarge);
    }
    ledger.allocate(address);
    Ok(
        CampaignAccount {
            address,
            lamports: ctx.deposit,
            campaign: Campaign {
                admin: ctx.user.key,
                name,
                description,
                amount_donated: 0,
            },
        },
    )
}

/// A signed creation whose name and description fit succeeds exactly when
/// the caller's campaign address can be derived and holds no record yet.
pub proof fn lemma_create_succeeds_when_fresh(
    allocated: Set<Seq<u8>>,
    program: Seq<u8>,
    user: Signer,
    name: Seq<char>,
    description: Seq<char>,
)
    requires
        user.is_signer,
        record_fits(name, description),
    ensures
        create_outcome(allocated, program, user, name, description) is Ok <==> (campaign_address_of(
            user.key@,
            program,
        ) is Some && !allocated.contains(campaign_address_of(user.key@, program)->Some_0)),
{
}

/// A campaign is created at most once per administrator: once a creation
/// by a key has succeeded, every later signed creation by the same key fails
/// with `AlreadyInitialized`, whatever its name and description.
pub proof fn lemma_create_once(
    allocated: Set<Seq<u8>>,
    program: Seq<u8>,
    first: Signer,
    name: Seq<char>,
    description: Seq<char>,
    second: Signer,
    second_name: Seq<char>,
    second_description: Seq<char>,
)
    requires
        create_outcome(allocated, program, first, name, description) is Ok,
        second.key@ == first.key@,
        second.is_signer,
    ensures
        create_outcome(
            allocated.insert(create_outcome(allocated, program, first, name, description)->Ok_0),
            program,
            second,
            second_name,
            second_description,
        ) == Err::<Seq<u8>, CampaignError>(CampaignError::AlreadyInitialized),
{
}

/// Creations for different administrators do not interfere: a successful
/// creation leaves the outcome of a creation by any key whose campaign
/// address differs as it was.
pub proof fn lemma_create_independent(
    allocated: Set<Seq<u8>>,
    program: Seq<u8>,
    first: Signer,
    name: Seq<char>,
    description: Seq<char>,
    other: Signer,
    other_name: Seq<char>,
    other_description: Seq<char>,
)
    requires
        create_outcome(allocated, program, first, name, description) is Ok,
        campaign_address_of(other.key@, program) != campaign_address_of(first.key@, program),
    ensures
        create_outcome(
            allocated.insert(create_outcome(allocated, program, first, name, description)->Ok_0),
            program,
            other,
            other_name,
            other_description,
        ) == create_outcome(allocated, program, other, other_name, other_description),
{
}

} // verus!
