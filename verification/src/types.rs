//! Ledger values shared by the state modules: credentials, anchors, voters,
//! block descriptions, and their mathematical models.

use vstd::prelude::*;

verus! {

/// A transaction hash.
pub type TxHash = [u8; 32];

/// A verification key hash.
pub type KeyHash = Vec<u8>;

/// A script hash.
pub type ScriptHash = Vec<u8>;

/// An amount of lovelace.
pub type Lovelace = u64;

/// A credential: either a key hash or a script hash.
#[derive(Debug, Clone, PartialEq, Eq, Hash)]
pub enum Credential {
    AddrKeyHash(KeyHash),
    ScriptHash(ScriptHash),
}

/// A DRep is identified by a credential.
pub type DRepCredential = Credential;

/// A stake address is identified by a credential.
pub type StakeCredential = Credential;

/// Model of a [`Credential`].
pub enum CredentialView {
    AddrKeyHash(Seq<u8>),
    ScriptHash(Seq<u8>),
}

impl View for Credential {
    type V = CredentialView;

    open spec fn view(&self) -> CredentialView {
        match self {
            Credential::AddrKeyHash(h) => CredentialView::AddrKeyHash(h@),
            Credential::ScriptHash(h) => CredentialView::ScriptHash(h@),
        }
    }
}

impl DeepView for Credential {
    type V = CredentialView;

    open spec fn deep_view(&self) -> CredentialView {
        self@
    }
}

impl CredentialView {
    /// The hash carried by the credential, whatever its kind.
    pub open spec fn hash(self) -> Seq<u8> {
        match self {
            CredentialView::AddrKeyHash(h) => h,
            CredentialView::ScriptHash(h) => h,
        }
    }
}

/// Byte-wise equality of two byte vectors.
pub fn bytes_equal(a: &Vec<u8>, b: &Vec<u8>) -> (r: bool)
    ensures
        r == (a@ == b@),
{
    if a.len() != b.len() {
        return false;
    }
    let mut i: usize = 0;
    while i < a.len()
        invariant
            a.len() == b.len(),
            i <= a.len(),
            forall|j: int| 0 <= j < i ==> a@[j] == b@[j],
        decreases a.len() - i,
    {
        if a[i] != b[i] {
            return false;
        }
        i = i + 1;
    }
    assert(a@ =~= b@);
    true
}

/// A copy of a byte vector with the same contents.
pub fn copy_bytes(a: &Vec<u8>) -> (r: Vec<u8>)
    ensures
        r@ == a@,
{
    let mut r: Vec<u8> = Vec::new();
    let mut i: usize = 0;
    while i < a.len()
        invariant
            i <= a.len(),
            r@ == a@.subrange(0, i as int),
        decreases a.len() - i,
    {
        r.push(a[i]);
        i = i + 1;
        assert(r@ =~= a@.subrange(0, i as int));
    }
    assert(a@.subrange(0, a.len() as int) =~= a@);
    r
}

impl Credential {
    /// The hash carried by the credential.
    pub fn get_hash(&self) -> (r: Vec<u8>)
        ensures
            r@ == self@.hash(),
    {
        match self {
            Credential::AddrKeyHash(h) => copy_bytes(h),
            Credential::ScriptHash(h) => copy_bytes(h),
        }
    }

    /// A credential equal to this one.
    pub fn duplicate(&self) -> (r: Credential)
        ensures
            r@ == self@,
    {
        match self {
            Credential::AddrKeyHash(h) => Credential::AddrKeyHash(copy_bytes(h)),
            Credential::ScriptHash(h) => Credential::ScriptHash(copy_bytes(h)),
        }
    }

    /// Whether two credentials are of the same kind and carry the same hash.
    pub fn same_as(&self, other: &Credential) -> (r: bool)
        ensures
            r == (self@ == other@),
    {
        match (self, other) {
            (Credential::AddrKeyHash(a), Credential::AddrKeyHash(b)) => bytes_equal(a, b),
            (Credential::ScriptHash(a), Credential::ScriptHash(b)) => bytes_equal(a, b),
            _ => false,
        }
    }
}

/// A copy of a vector of copyable values.
pub fn copy_vec<T: Copy>(a: &Vec<T>) -> (r: Vec<T>)
    ensures
        r@ == a@,
{
    let mut r: Vec<T> = Vec::new();
    let mut i: usize = 0;
    while i < a.len()
        invariant
            i <= a.len(),
            r@ == a@.subrange(0, i as int),
        decreases a.len() - i,
    {
        r.push(a[i]);
        i = i + 1;
        assert(r@ =~= a@.subrange(0, i as int));
    }
    assert(a@.subrange(0, a.len() as int) =~= a@);
    r
}

/// Values that can be copied into an equal value.
pub trait Duplicate: View + Sized {
    fn duplicate(&self) -> (r: Self)
        ensures
            r@ == self@,
    ;
}

/// Copies of the credentials of a vector, in the same order.
pub fn duplicate_credentials(v: &Vec<Credential>) -> (r: Vec<Credential>)
    ensures
        r.deep_view() == v.deep_view(),
{
    let mut r: Vec<Credential> = Vec::new();
    let mut i: usize = 0;
    while i < v.len()
        invariant
            i <= v.len(),
            r@.len() == i,
            forall|j: int| 0 <= j < i ==> (#[trigger] r@[j])@ == v@[j]@,
        decreases v.len() - i,
    {
        let c = v[i].duplicate();
        r.push(c);
        i = i + 1;
    }
    assert(r.deep_view() =~= v.deep_view());
    r
}

/// A DRep choice of a stake address.
#[derive(Debug, Clone, PartialEq, Eq)]
pub enum DRepChoice {
    Key(KeyHash),
    Script(ScriptHash),
    Abstain,
    NoConfidence,
}

/// Model of a [`DRepChoice`].
pub enum DRepChoiceView {
    Key(Seq<u8>),
    Script(Seq<u8>),
    Abstain,
    NoConfidence,
}

impl View for DRepChoice {
    type V = DRepChoiceView;

    open spec fn view(&self) -> DRepChoiceView {
        match self {
            DRepChoice::Key(h) => DRepChoiceView::Key(h@),
            DRepChoice::Script(h) => DRepChoiceView::Script(h@),
            DRepChoice::Abstain => DRepChoiceView::Abstain,
            DRepChoice::NoConfidence => DRepChoiceView::NoConfidence,
        }
    }
}

impl DeepView for DRepChoice {
    type V = DRepChoiceView;

    open spec fn deep_view(&self) -> DRepChoiceView {
        self@
    }
}

/// The DRep credential that a choice names, if it names one.
pub open spec fn choice_credential(c: DRepChoiceView) -> Option<CredentialView> {
    match c {
        DRepChoiceView::Key(h) => Some(CredentialView::AddrKeyHash(h)),
        DRepChoiceView::Script(h) => Some(CredentialView::ScriptHash(h)),
        _ => None,
    }
}

impl DRepChoice {
    /// A choice equal to this one.
    pub fn duplicate(&self) -> (r: DRepChoice)
        ensures
            r@ == self@,
    {
        match self {
            DRepChoice::Key(h) => DRepChoice::Key(copy_bytes(h)),
            DRepChoice::Script(h) => DRepChoice::Script(copy_bytes(h)),
            DRepChoice::Abstain => DRepChoice::Abstain,
            DRepChoice::NoConfidence => DRepChoice::NoConfidence,
        }
    }
}

/// The DRep credential that a choice names: key and script choices name one,
/// abstain and no-confidence name none.
pub fn drep_choice_to_credential(choice: &DRepChoice) -> (r: Option<DRepCredential>)
    ensures
        match r {
            Some(c) => choice_credential(choice@) == Some(c@),
            None => choice_credential(choice@) is None,
        },
{
    match choice {
        DRepChoice::Key(k) => Some(Credential::AddrKeyHash(copy_bytes(k))),
        DRepChoice::Script(k) => Some(Credential::ScriptHash(copy_bytes(k))),
        _ => None,
    }
}

/// An anchor: a URL and the hash of the document it points to.
#[derive(Debug, Clone, PartialEq, Eq)]
pub struct Anchor {
    pub url: String,
    pub data_hash: Vec<u8>,
}

/// Model of an [`Anchor`].
pub struct AnchorView {
    pub url: Seq<char>,
    pub data_hash: Seq<u8>,
}

impl View for Anchor {
    type V = AnchorView;

    open spec fn view(&self) -> AnchorView {
        AnchorView { url: self.url@, data_hash: self.data_hash@ }
    }
}

impl DeepView for Anchor {
    type V = AnchorView;

    open spec fn deep_view(&self) -> AnchorView {
        self@
    }
}

impl Anchor {
    /// An anchor equal to this one.
    pub fn duplicate(&self) -> (r: Anchor)
        ensures
            r@ == self@,
    {
        Anchor { url: self.url.clone(), data_hash: copy_bytes(&self.data_hash) }
    }
}

/// A copy of an optional anchor.
pub fn duplicate_anchor(a: &Option<Anchor>) -> (r: Option<Anchor>)
    ensures
        r.deep_view() == a.deep_view(),
{
    match a {
        Some(x) => Some(x.duplicate()),
        None => None,
    }
}

/// A vote.
#[derive(Debug, Clone, Copy, PartialEq, Eq, Structural)]
pub enum Vote {
    No,
    Yes,
    Abstain,
}

/// Who cast a vote.
#[derive(Debug, Clone, PartialEq, Eq)]
pub enum Voter {
    ConstitutionalCommitteeKey(KeyHash),
    ConstitutionalCommitteeScript(ScriptHash),
    DRepKey(KeyHash),
    DRepScript(ScriptHash),
    StakePoolKey(KeyHash),
}

/// The DRep credential of a voter, if the voter is a DRep.
pub open spec fn voter_drep_credential(v: Voter) -> Option<CredentialView> {
    match v {
        Voter::DRepKey(k) => Some(CredentialView::AddrKeyHash(k@)),
        Voter::DRepScript(s) => Some(CredentialView::ScriptHash(s@)),
        _ => None,
    }
}

/// Identifier of a governance action.
#[derive(Debug, Clone, PartialEq, Eq)]
pub struct GovActionId {
    pub transaction_id: Vec<u8>,
    pub action_index: u8,
}

/// Status of a block.
#[derive(Debug, Clone, Copy, PartialEq, Eq, Structural)]
pub enum BlockStatus {
    Bootstrap,
    Immutable,
    Volatile,
    RolledBack,
}

/// Ledger era of a block.
#[derive(Debug, Clone, Copy, PartialEq, Eq, Structural)]
pub enum Era {
    Byron,
    Shelley,
    Allegra,
    Mary,
    Alonzo,
    Babbage,
    Conway,
}

/// Description of a block.
#[derive(Debug, Clone, PartialEq, Eq)]
pub struct BlockInfo {
    pub status: BlockStatus,
    pub slot: u64,
    pub number: u64,
    pub hash: Vec<u8>,
    pub epoch: u64,
    pub new_epoch: bool,
    pub era: Era,
}

} // verus!
