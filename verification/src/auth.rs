//! Identity claims and the permission checks the ledger surface runs on.
//!
//! The bearer token carries custom claims: an admin level, per-organization
//! permission bits, and per-wallet grants. Verification of the token itself
//! is an outside concern; what is decided here is what a decoded claim set
//! allows.

use vstd::prelude::*;

verus! {

/// Every permission bit an organization owner holds.
pub const OWNER_PERMISSION: i64 = 0x1fffffffffffff;

/// The bit that allows editing an organization's ledger.
pub const EDITOR_PERMISSION: i64 = 0x2;

/// Per-organization permission levels, keyed by organization id.
pub struct OrgClaims {
    entries: Vec<(u128, i64)>,
}

/// First level recorded for the organization, if any.
pub open spec fn org_lookup(s: Seq<(u128, i64)>, org_id: u128) -> Option<i64>
    decreases s.len(),
{
    if s.len() == 0 {
        None
    } else if s[0].0 == org_id {
        Some(s[0].1)
    } else {
        org_lookup(s.drop_first(), org_id)
    }
}

impl OrgClaims {
    pub closed spec fn kv_seq(&self) -> Seq<(u128, i64)> {
        self.entries@
    }

    pub fn new() -> (r: OrgClaims)
        ensures
            r.kv_seq() == Seq::<(u128, i64)>::empty(),
    {
        OrgClaims { entries: Vec::new() }
    }

    /// Record a level for an organization, newest entry last.
    pub fn push(&mut self, org_id: u128, level: i64)
        ensures
            final(self).kv_seq() == old(self).kv_seq().push((org_id, level)),
    {
        self.entries.push((org_id, level));
    }

    pub fn get(&self, org_id: u128) -> (r: Option<i64>)
        ensures
            r == org_lookup(self.kv_seq(), org_id),
    {
        let n = self.entries.len();
        let mut i: usize = 0;
        while i < n
            invariant
                n == self.kv_seq().len(),
                i <= n,
                forall|j: int| 0 <= j < i ==> (#[trigger] self.kv_seq()[j]).0 != org_id,
            decreases n - i,
        {
            if self.entries[i].0 == org_id {
                proof {
                    lemma_org_lookup_found(self.kv_seq(), org_id, i as int);
                }
                return Some(self.entries[i].1);
            }
            i += 1;
        }
        proof {
            lemma_org_lookup_none(self.kv_seq(), org_id);
        }
        None
    }
}

proof fn lemma_org_lookup_found(s: Seq<(u128, i64)>, org_id: u128, i: int)
    requires
        0 <= i < s.len(),
        s[i].0 == org_id,
        forall|j: int| 0 <= j < i ==> (#[trigger] s[j]).0 != org_id,
    ensures
        org_lookup(s, org_id) == Some(s[i].1),
    decreases i,
{
    if i > 0 {
        lemma_org_lookup_found(s.drop_first(), org_id, i - 1);
    }
}

proof fn lemma_org_lookup_none(s: Seq<(u128, i64)>, org_id: u128)
    requires
        forall|j: int| 0 <= j < s.len() ==> (#[trigger] s[j]).0 != org_id,
    ensures
        org_lookup(s, org_id) is None,
    decreases s.len(),
{
    if s.len() > 0 {
        lemma_org_lookup_none(s.drop_first(), org_id);
    }
}

/// Per-wallet grants: chain id, signer address, granted or revoked.
pub struct WalletClaims {
    entries: Vec<(i64, String, bool)>,
}

/// A wallet entry, read by content.
pub open spec fn wallet_views(s: Seq<(i64, String, bool)>) -> Seq<(i64, Seq<char>, bool)> {
    s.map_values(|t: (i64, String, bool)| (t.0, t.1@, t.2))
}

/// First grant recorded for the wallet, if any.
pub open spec fn wallet_lookup(
    s: Seq<(i64, String, bool)>,
    chain_id: i64,
    address: Seq<char>,
) -> Option<bool>
    decreases s.len(),
{
    if s.len() == 0 {
        None
    } else if s[0].0 == chain_id && s[0].1@ == address {
        Some(s[0].2)
    } else {
        wallet_lookup(s.drop_first(), chain_id, address)
    }
}

/// The wallets that stay after claims are repaired: every granted wallet,
/// its address folded to lower case, revoked entries dropped.
pub open spec fn repaired_wallets(s: Seq<(i64, String, bool)>) -> Seq<(i64, Seq<char>, bool)>
    decreases s.len(),
{
    if s.len() == 0 {
        Seq::empty()
    } else {
        let prev = repaired_wallets(s.drop_last());
        if s.last().2 {
            prev.push((s.last().0, lower_of(s.last().1@), true))
        } else {
            prev
        }
    }
}

/// What lower-casing leaves of a piece of text: a function of its
/// characters alone.
pub uninterp spec fn lower_of(s: Seq<char>) -> Seq<char>;

/// Relies on str::to_lowercase: the result depends on the characters alone.
#[verifier::external_body]
fn lowercase(s: &str) -> (r: String)
    ensures
        r@ == lower_of(s@),
{
    s.to_lowercase()
}

impl WalletClaims {
    pub closed spec fn kv_seq(&self) -> Seq<(i64, String, bool)> {
        self.entries@
    }

    pub fn new() -> (r: WalletClaims)
        ensures
            r.kv_seq() == Seq::<(i64, String, bool)>::empty(),
    {
        WalletClaims { entries: Vec::new() }
    }

    /// Record a grant, newest entry last.
    pub fn push(&mut self, chain_id: i64, address: String, granted: bool)
        ensures
            final(self).kv_seq() == old(self).kv_seq().push((chain_id, address, granted)),
    {
        self.entries.push((chain_id, address, granted));
    }

    pub fn get(&self, chain_id: i64, address: &str) -> (r: Option<bool>)
        ensures
            r == wallet_lookup(self.kv_seq(), chain_id, address@),
    {
        let key = address.to_owned();
        let n = self.entries.len();
        let mut i: usize = 0;
        while i < n
            invariant
                n == self.kv_seq().len(),
                i <= n,
                key@ == address@,
                forall|j: int|
                    0 <= j < i ==> !((#[trigger] self.kv_seq()[j]).0 == chain_id
                        && self.kv_seq()[j].1@ == address@),
            decreases n - i,
        {
            if self.entries[i].0 == chain_id && self.entries[i].1 == key {
                proof {
                    lemma_wallet_lookup_found(self.kv_seq(), chain_id, address@, i as int);
                }
                return Some(self.entries[i].2);
            }
            i += 1;
        }
        proof {
            lemma_wallet_lookup_none(self.kv_seq(), chain_id, address@);
        }
        None
    }

    /// Repair the wallet claims: keep every granted wallet with its address
    /// folded to lower case, drop everything revoked.
    pub fn repaired(&self) -> (r: WalletClaims)
        ensures
            wallet_views(r.kv_seq()) == repaired_wallets(self.kv_seq()),
    {
        let mut out: Vec<(i64, String, bool)> = Vec::new();
        let n = self.entries.len();
        let mut i: usize = 0;
        while i < n
            invariant
                n == self.kv_seq().len(),
                i <= n,
                wallet_views(out@) == repaired_wallets(self.kv_seq().take(i as int)),
            decreases n - i,
        {
            let e = &self.entries[i];
            if e.2 {
                let lowered = lowercase(e.1.as_str());
                out.push((e.0, lowered, true));
            }
            proof {
                assert(self.kv_seq().take(i + 1 as int).drop_last() =~= self.kv_seq().take(
                    i as int,
                ));
                assert(self.kv_seq().take(i + 1 as int).last() == self.kv_seq()[i as int]);
                assert(wallet_views(out@) =~= repaired_wallets(self.kv_seq().take(i + 1 as int)));
            }
            i += 1;
        }
        proof {
            assert(self.kv_seq().take(n as int) =~= self.kv_seq());
        }
        WalletClaims { entries: out }
    }
}

proof fn lemma_wallet_lookup_found(s: Seq<(i64, String, bool)>, chain_id: i64, address: Seq<char>, i: int)
    requires
        0 <= i < s.len(),
        s[i].0 == chain_id,
        s[i].1@ == address,
        forall|j: int|
            0 <= j < i ==> !((#[trigger] s[j]).0 == chain_id && s[j].1@ == address),
    ensures
        wallet_lookup(s, chain_id, address) == Some(s[i].2),
    decreases i,
{
    if i > 0 {
        lemma_wallet_lookup_found(s.drop_first(), chain_id, address, i - 1);
    }
}

proof fn lemma_wallet_lookup_none(s: Seq<(i64, String, bool)>, chain_id: i64, address: Seq<char>)
    requires
        forall|j: int|
            0 <= j < s.len() ==> !((#[trigger] s[j]).0 == chain_id && s[j].1@ == address),
    ensures
        wallet_lookup(s, chain_id, address) is None,
    decreases s.len(),
{
    if s.len() > 0 {
        lemma_wallet_lookup_none(s.drop_first(), chain_id, address);
    }
}

/// The custom claims a bearer token carries.
pub struct CustomClaims {
    pub admin: i64,
    pub orgs: OrgClaims,
    pub wallets: WalletClaims,
}

/// The token's standard claims plus the custom ones: one authenticated user.
pub struct MyFirebaseUser {
    pub provider_id: Option<String>,
    pub name: Option<String>,
    pub picture: Option<String>,
    pub iss: String,
    pub aud: String,
    pub auth_time: u64,
    pub user_id: String,
    pub sub: String,
    pub iat: u64,
    pub exp: u64,
    pub email: Option<String>,
    pub email_verified: Option<bool>,
    pub claims: CustomClaims,
}

impl MyFirebaseUser {
    /// An administrator of any positive level may act as superuser.
    pub fn can_sudo(&self) -> (r: bool)
        ensures
            r == (self.claims.admin > 0),
    {
        self.claims.admin > 0
    }

    /// Editing an organization needs at least the editor permission on it.
    pub fn can_edit(&self, org_id: u128) -> (r: bool)
        ensures
            r == (org_lookup(self.claims.orgs.kv_seq(), org_id) matches Some(p) && p
                >= EDITOR_PERMISSION),
    {
        match self.claims.orgs.get(org_id) {
            Some(p) => p >= EDITOR_PERMISSION,
            None => false,
        }
    }

    /// Acting for a wallet needs a grant recorded for exactly that chain
    /// and signer address.
    pub fn has_wallet_claim(&self, chain_id: i64, signer_address: &str) -> (r: bool)
        ensures
            r == (wallet_lookup(self.claims.wallets.kv_seq(), chain_id, signer_address@) == Some(
                true,
            )),
    {
        match self.claims.wallets.get(chain_id, signer_address) {
            Some(c) => c,
            None => false,
        }
    }
}

/// A request's user, when its token is present and valid.
pub struct MaybeUser(pub Option<MyFirebaseUser>);

/// What a rejected request is told.
pub struct UnauthorizedResponse {
    msg: String,
}

impl UnauthorizedResponse {
    pub closed spec fn spec_message(&self) -> String {
        self.msg
    }

    pub fn new(msg: String) -> (r: UnauthorizedResponse)
        ensures
            r.spec_message() == msg,
    {
        UnauthorizedResponse { msg }
    }

    pub fn message(&self) -> (r: &String)
        ensures
            r == self.spec_message(),
    {
        &self.msg
    }
}

/// One identity-provider record of a user, as the account service lists it.
#[allow(non_snake_case)]
pub struct ProviderUserInfo {
    pub providerId: String,
    pub displayName: Option<String>,
    pub photoUrl: Option<String>,
    pub federatedId: Option<String>,
    pub email: Option<String>,
    pub rawId: String,
    pub screenName: Option<String>,
    pub phoneNumber: Option<String>,
}

/// The body of a wallet-link request: the signature proving control of the
/// signer address.
pub struct ConnectParams {
    pub sig: String,
    pub user_id: String,
    pub chain_id: i64,
    pub signer_address: String,
}

} // verus!
