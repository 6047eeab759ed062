//! Who is acting, and what they are made of.
//!
//! A [`Principal`] is the subject of every access check, a [`ModelClass`] says
//! what kind of model it runs, and a [`GovernanceLabel`] is the classification
//! that travels with data. Nothing here performs a check; that is
//! [`super::engine`]'s job.

use vstd::prelude::*;
use crate::text::{same_option, same_text};
use crate::types::HarnessId;
use crate::views::{opt_view, views};

verus! {

// ---------------------------------------------------------------------------
// Trust
// ---------------------------------------------------------------------------

/// Coarse privilege band, ordered from low to high.
#[derive(Clone, Copy, Debug, PartialEq, Eq, PartialOrd, Ord, Hash, Structural)]
pub enum TrustTier {
    /// Content-derived or externally influenced agents.
    Untrusted,
    /// Normal worker agents. Read narrow, write narrow.
    Sandboxed,
    /// Trusted workers: broader memory, may message peers.
    Standard,
    /// Planners and supervisors: may spawn, delegate and revoke.
    Privileged,
    /// The swarm kernel itself. Never granted to a model-driven agent.
    Kernel,
}

impl TrustTier {
    /// Position in the order from low to high.
    pub open spec fn rank(self) -> int {
        match self {
            TrustTier::Untrusted => 0,
            TrustTier::Sandboxed => 1,
            TrustTier::Standard => 2,
            TrustTier::Privileged => 3,
            TrustTier::Kernel => 4,
        }
    }

    /// The tier's name in logs.
    pub open spec fn name_spec(self) -> Seq<char> {
        match self {
            TrustTier::Untrusted => "Untrusted"@,
            TrustTier::Sandboxed => "Sandboxed"@,
            TrustTier::Standard => "Standard"@,
            TrustTier::Privileged => "Privileged"@,
            TrustTier::Kernel => "Kernel"@,
        }
    }

    fn level(self) -> (r: u8)
        ensures
            r == self.rank(),
    {
        match self {
            TrustTier::Untrusted => 0,
            TrustTier::Sandboxed => 1,
            TrustTier::Standard => 2,
            TrustTier::Privileged => 3,
            TrustTier::Kernel => 4,
        }
    }

    /// Whether this tier is `floor` or higher.
    pub fn at_least(self, floor: TrustTier) -> (r: bool)
        ensures
            r == (self.rank() >= floor.rank()),
    {
        self.level() >= floor.level()
    }

    /// The lower of two tiers.
    pub open spec fn lower_of(self, other: TrustTier) -> TrustTier {
        if self.rank() <= other.rank() {
            self
        } else {
            other
        }
    }

    /// The tier that a ceiling leaves of this one.
    pub fn capped_at(self, ceiling: TrustTier) -> (r: TrustTier)
        ensures
            r == self.lower_of(ceiling),
    {
        if ceiling.at_least(self) {
            self
        } else {
            ceiling
        }
    }

    /// The tier's name in logs.
    pub fn name(self) -> (r: &'static str)
        ensures
            r@ == self.name_spec(),
    {
        match self {
            TrustTier::Untrusted => "Untrusted",
            TrustTier::Sandboxed => "Sandboxed",
            TrustTier::Standard => "Standard",
            TrustTier::Privileged => "Privileged",
            TrustTier::Kernel => "Kernel",
        }
    }
}

// ---------------------------------------------------------------------------
// Tenancy and data classification
// ---------------------------------------------------------------------------

/// Isolation domain. Values never flow between tenants.
#[derive(Debug, PartialEq, Eq, Hash, PartialOrd, Ord)]
pub struct TenantId(pub String);

impl View for TenantId {
    type V = Seq<char>;

    open spec fn view(&self) -> Seq<char> {
        self.0@
    }
}

impl Clone for TenantId {
    fn clone(&self) -> (r: Self)
        ensures
            r@ == self@,
    {
        TenantId(self.0.clone())
    }
}

impl TenantId {
    /// A tenant from its name.
    pub fn new(s: &str) -> (r: Self)
        ensures
            r@ == s@,
    {
        TenantId(s.to_owned())
    }
}

/// Classification attached to a stored value.
#[derive(Debug, PartialEq, Eq, Hash)]
pub struct GovernanceLabel {
    pub tenant: TenantId,
    /// Branch or workspace the value was derived from, if any.
    pub branch: Option<String>,
    /// Free-form scope tags.
    pub scopes: Vec<String>,
    /// Version of the policy in force when the value was written.
    pub policy_version: u32,
}

/// The mathematical value of a [`GovernanceLabel`].
#[verifier::ext_equal]
pub struct LabelView {
    pub tenant: Seq<char>,
    pub branch: Option<Seq<char>>,
    pub scopes: Seq<Seq<char>>,
    pub policy_version: u32,
}

impl View for GovernanceLabel {
    type V = LabelView;

    open spec fn view(&self) -> LabelView {
        LabelView {
            tenant: self.tenant@,
            branch: opt_view(self.branch),
            scopes: views(self.scopes@),
            policy_version: self.policy_version,
        }
    }
}

impl Clone for GovernanceLabel {
    fn clone(&self) -> (r: Self)
        ensures
            r@ == self@,
    {
        let r = GovernanceLabel {
            tenant: self.tenant.clone(),
            branch: self.branch.clone(),
            scopes: self.scopes.clone(),
            policy_version: self.policy_version,
        };
        assert(r@ =~= self@);
        r
    }
}

impl GovernanceLabel {
    /// The least sensitive label: one tenant, no branch, no scopes.
    pub fn plain(tenant: TenantId) -> (r: Self)
        ensures
            r@ == (LabelView {
                tenant: tenant@,
                branch: None,
                scopes: Seq::empty(),
                policy_version: 0,
            }),
    {
        let r = GovernanceLabel { tenant, branch: None, scopes: Vec::new(), policy_version: 0 };
        assert(r@.scopes =~= Seq::<Seq<char>>::empty());
        r
    }

    /// Structural pre-filter: false for combinations that no policy should
    /// ever allow. True means "worth asking", never "permitted".
    pub fn could_flow_to(&self, reader: &Principal) -> (r: bool)
        ensures
            r == (self@.tenant == reader@.tenant),
    {
        same_text(&self.tenant.0, &reader.tenant.0)
    }
}

// ---------------------------------------------------------------------------
// Model identity
// ---------------------------------------------------------------------------

/// The identity of a model, at the granularity that matters for cache sharing.
#[derive(Debug, PartialEq, Eq, Hash)]
pub struct ModelClass {
    pub provider: String,
    /// Family within the provider.
    pub family: String,
    /// Exact revision. Required for tensor-level reuse.
    pub revision: String,
    /// The embedding model whose vectors index this pool. `None` means the
    /// pool is exact-key only.
    pub embedding_space: Option<String>,
    /// Weight quantization or serving variant.
    pub quantization: Option<String>,
}

/// The mathematical value of a [`ModelClass`].
#[verifier::ext_equal]
pub struct ModelClassView {
    pub provider: Seq<char>,
    pub family: Seq<char>,
    pub revision: Seq<char>,
    pub embedding_space: Option<Seq<char>>,
    pub quantization: Option<Seq<char>>,
}

/// The text of an optional part of a pool key.
pub open spec fn or_dash(o: Option<Seq<char>>) -> Seq<char> {
    match o {
        Some(s) => s,
        None => "-"@,
    }
}

impl ModelClassView {
    /// Same provider and same family.
    pub open spec fn same_family(self, other: ModelClassView) -> bool {
        self.provider == other.provider && self.family == other.family
    }

    /// Both sides have an embedding space, and it is the same one.
    pub open spec fn same_space(self, other: ModelClassView) -> bool {
        self.embedding_space is Some && self.embedding_space == other.embedding_space
    }

    /// How much reuse is safe between two classes.
    pub open spec fn compatibility(self, other: ModelClassView) -> Compatibility {
        if self == other {
            Compatibility::Identical
        } else if self.same_family(other) && self.same_space(other) {
            Compatibility::SameFamily
        } else if self.same_space(other) {
            Compatibility::SameEmbeddingSpace
        } else {
            Compatibility::Incompatible
        }
    }

    /// The namespace of the pool that this class owns.
    pub open spec fn pool_key(self) -> Seq<char> {
        self.provider + "/"@ + self.family + "/"@ + self.revision + "/"@ + or_dash(
            self.embedding_space,
        ) + "/"@ + or_dash(self.quantization)
    }
}

impl View for ModelClass {
    type V = ModelClassView;

    open spec fn view(&self) -> ModelClassView {
        ModelClassView {
            provider: self.provider@,
            family: self.family@,
            revision: self.revision@,
            embedding_space: opt_view(self.embedding_space),
            quantization: opt_view(self.quantization),
        }
    }
}

impl Clone for ModelClass {
    fn clone(&self) -> (r: Self)
        ensures
            r@ == self@,
    {
        ModelClass {
            provider: self.provider.clone(),
            family: self.family.clone(),
            revision: self.revision.clone(),
            embedding_space: self.embedding_space.clone(),
            quantization: self.quantization.clone(),
        }
    }
}

fn dash_unless<'a>(o: &'a Option<String>) -> (r: &'a str)
    ensures
        r@ == or_dash(opt_view(*o)),
{
    match o {
        Some(s) => s.as_str(),
        None => "-",
    }
}

impl ModelClass {
    /// Whether two classes are the same in every field.
    pub fn same_as(&self, other: &Self) -> (r: bool)
        ensures
            r == (self@ == other@),
    {
        same_text(&self.provider, &other.provider) && same_text(&self.family, &other.family)
            && same_text(&self.revision, &other.revision) && same_option(
            &self.embedding_space,
            &other.embedding_space,
        ) && same_option(&self.quantization, &other.quantization)
    }

    /// How much reuse is safe between two classes.
    pub fn compatibility(&self, other: &Self) -> (r: Compatibility)
        ensures
            r == self@.compatibility(other@),
    {
        if self.same_as(other) {
            return Compatibility::Identical;
        }
        let same_family = same_text(&self.provider, &other.provider) && same_text(
            &self.family,
            &other.family,
        );
        let same_space = self.embedding_space.is_some() && same_option(
            &self.embedding_space,
            &other.embedding_space,
        );
        if same_family && same_space {
            Compatibility::SameFamily
        } else if same_space {
            Compatibility::SameEmbeddingSpace
        } else {
            Compatibility::Incompatible
        }
    }

    /// Stable string used as the cache-pool namespace.
    pub fn pool_key(&self) -> (r: String)
        ensures
            r@ == self@.pool_key(),
    {
        let mut s = self.provider.clone();
        s.append("/");
        s.append(&self.family);
        s.append("/");
        s.append(&self.revision);
        s.append("/");
        s.append(dash_unless(&self.embedding_space));
        s.append("/");
        s.append(dash_unless(&self.quantization));
        s
    }
}

/// The reuse ceiling between two model classes, ordered from low to high.
#[derive(Clone, Copy, Debug, PartialEq, Eq, PartialOrd, Ord, Structural)]
pub enum Compatibility {
    /// Nothing is reusable.
    Incompatible,
    /// Same vector space, different model family.
    SameEmbeddingSpace,
    /// Same provider, family and vector space. Text is reusable; raw tensor
    /// blocks are not.
    SameFamily,
    /// The same serving class. Everything is reusable.
    Identical,
}

impl Compatibility {
    /// Position in the order from low to high.
    pub open spec fn rank(self) -> int {
        match self {
            Compatibility::Incompatible => 0,
            Compatibility::SameEmbeddingSpace => 1,
            Compatibility::SameFamily => 2,
            Compatibility::Identical => 3,
        }
    }

    /// The level's name in logs.
    pub open spec fn name_spec(self) -> Seq<char> {
        match self {
            Compatibility::Incompatible => "Incompatible"@,
            Compatibility::SameEmbeddingSpace => "SameEmbeddingSpace"@,
            Compatibility::SameFamily => "SameFamily"@,
            Compatibility::Identical => "Identical"@,
        }
    }

    /// Position in the order from low to high, as a number.
    pub fn level(self) -> (r: u8)
        ensures
            r == self.rank(),
    {
        match self {
            Compatibility::Incompatible => 0,
            Compatibility::SameEmbeddingSpace => 1,
            Compatibility::SameFamily => 2,
            Compatibility::Identical => 3,
        }
    }

    /// Whether this level is `floor` or higher.
    pub fn at_least(self, floor: Compatibility) -> (r: bool)
        ensures
            r == (self.rank() >= floor.rank()),
    {
        self.level() >= floor.level()
    }

    /// The level's name in logs.
    pub fn name(self) -> (r: &'static str)
        ensures
            r@ == self.name_spec(),
    {
        match self {
            Compatibility::Incompatible => "Incompatible",
            Compatibility::SameEmbeddingSpace => "SameEmbeddingSpace",
            Compatibility::SameFamily => "SameFamily",
            Compatibility::Identical => "Identical",
        }
    }
}

// ---------------------------------------------------------------------------
// Principal
// ---------------------------------------------------------------------------

/// One lower-case hexadecimal digit.
pub open spec fn hex_digit(d: nat) -> char {
    if d < 10 {
        ('0' as u32 + d) as char
    } else {
        ('a' as u32 + (d - 10)) as char
    }
}

/// The `width` low hexadecimal digits of `v`, most significant first.
pub open spec fn hex(v: nat, width: nat) -> Seq<char>
    decreases width,
{
    if width == 0 {
        Seq::empty()
    } else {
        hex(v / 16, (width - 1) as nat).push(hex_digit(v % 16))
    }
}

/// The hyphenated form of a 128-bit identifier.
pub open spec fn hyphenated(v: nat) -> Seq<char> {
    let h = hex(v, 32);
    h.subrange(0, 8) + "-"@ + h.subrange(8, 12) + "-"@ + h.subrange(12, 16) + "-"@ + h.subrange(
        16,
        20,
    ) + "-"@ + h.subrange(20, 32)
}

/// Whether a 128-bit identifier has version digit 4 and variant bits 10.
pub open spec fn version_four(v: nat) -> bool {
    &&& (v / 0x1_0000_0000_0000_0000_000) % 16 == 4
    &&& (v / 0x4000_0000_0000_0000) % 4 == 2
}

/// `uuid::Uuid::new_v4`, as a 128-bit number: random but for the version
/// digit, which is 4, and the two variant bits, which are binary 10.
#[verifier::external_body]
fn random_uuid() -> (v: u128)
    ensures
        version_four(v as nat),
{
    uuid::Uuid::new_v4().as_u128()
}

/// `uuid::Uuid::simple`, printed: 32 lower-case hexadecimal digits.
#[verifier::external_body]
fn uuid_simple(v: u128) -> (r: String)
    ensures
        r@ == hex(v as nat, 32),
{
    uuid::Uuid::from_u128(v).simple().to_string()
}

/// `<uuid::Uuid as Display>::fmt`: the digits in groups of 8, 4, 4, 4 and 12,
/// with hyphens between them.
#[verifier::external_body]
fn uuid_hyphenated(v: u128) -> (r: String)
    ensures
        r@ == hyphenated(v as nat),
{
    uuid::Uuid::from_u128(v).to_string()
}

proof fn lemma_hex_len(v: nat, width: nat)
    ensures
        hex(v, width).len() == width,
    decreases width,
{
    if width > 0 {
        lemma_hex_len(v / 16, (width - 1) as nat);
    }
}

/// Identifies one admission: one running instance of an agent.
#[derive(Clone, Copy, Debug, PartialEq, Eq, Hash, Structural)]
pub struct AgentUid(pub u128);

impl Default for AgentUid {
    /// A fresh random identifier.
    fn default() -> (r: Self)
        ensures
            version_four(r.0 as nat),
    {
        AgentUid::new()
    }
}

impl AgentUid {
    /// A fresh random identifier.
    pub fn new() -> (r: Self)
        ensures
            version_four(r.0 as nat),
    {
        AgentUid(random_uuid())
    }

    /// The first eight hexadecimal characters.
    pub fn short(&self) -> (r: String)
        ensures
            r@ == hex(self.0 as nat, 32).take(8),
    {
        let full = uuid_simple(self.0);
        proof {
            lemma_hex_len(self.0 as nat, 32);
        }
        full.as_str().substring_char(0, 8).to_owned()
    }

    /// The full identifier, hyphenated.
    pub fn to_text(&self) -> (r: String)
        ensures
            r@ == hyphenated(self.0 as nat),
    {
        uuid_hyphenated(self.0)
    }
}

/// The subject of an access check: a running harness plus its credentials.
#[derive(Debug, PartialEq, Eq)]
pub struct Principal {
    /// Unique to this admission.
    pub uid: AgentUid,
    /// Which process this is. Matches the bus routing address.
    pub harness: HarnessId,
    /// The agent role running inside it.
    pub agent: String,
    /// The model behind the agent.
    pub model_class: ModelClass,
    /// Isolation domain.
    pub tenant: TenantId,
    /// Privilege band.
    pub trust: TrustTier,
    /// Who spawned this principal, if anyone.
    pub parent: Option<HarnessId>,
    /// The spawning principal's own identifier, if any.
    pub parent_uid: Option<AgentUid>,
}

/// The mathematical value of a [`Principal`].
#[verifier::ext_equal]
pub struct PrincipalView {
    pub uid: AgentUid,
    pub harness: Seq<char>,
    pub agent: Seq<char>,
    pub model_class: ModelClassView,
    pub tenant: Seq<char>,
    pub trust: TrustTier,
    pub parent: Option<Seq<char>>,
    pub parent_uid: Option<AgentUid>,
}

impl PrincipalView {
    /// `agent(harness@tenant)`.
    pub open spec fn text(self) -> Seq<char> {
        self.agent + "("@ + self.harness + "@"@ + self.tenant + ")"@
    }
}

impl View for Principal {
    type V = PrincipalView;

    open spec fn view(&self) -> PrincipalView {
        PrincipalView {
            uid: self.uid,
            harness: self.harness@,
            agent: self.agent@,
            model_class: self.model_class@,
            tenant: self.tenant@,
            trust: self.trust,
            parent: opt_view(self.parent),
            parent_uid: self.parent_uid,
        }
    }
}

impl Clone for Principal {
    fn clone(&self) -> (r: Self)
        ensures
            r@ == self@,
    {
        Principal {
            uid: self.uid,
            harness: self.harness.clone(),
            agent: self.agent.clone(),
            model_class: self.model_class.clone(),
            tenant: self.tenant.clone(),
            trust: self.trust,
            parent: self.parent.clone(),
            parent_uid: self.parent_uid,
        }
    }
}

impl Principal {
    /// `agent(harness@tenant)`.
    pub fn to_text(&self) -> (r: String)
        ensures
            r@ == self@.text(),
    {
        let mut s = self.agent.clone();
        s.append("(");
        s.append(&self.harness.0);
        s.append("@");
        s.append(&self.tenant.0);
        s.append(")");
        s
    }
}

// ---------------------------------------------------------------------------
// Laws
// ---------------------------------------------------------------------------

/// Compatibility does not depend on which side asks, and a class is identical
/// to itself and to nothing else.
pub proof fn law_compatibility_is_symmetric(a: ModelClassView, b: ModelClassView)
    ensures
        a.compatibility(b) == b.compatibility(a),
        a.compatibility(b) == Compatibility::Identical <==> a == b,
{
}

/// Identical classes name one pool.
pub proof fn law_identical_classes_share_a_pool(a: ModelClassView, b: ModelClassView)
    requires
        a.compatibility(b) == Compatibility::Identical,
    ensures
        a.pool_key() == b.pool_key(),
{
}

/// Whether no part of the class holds a slash.
pub open spec fn unslashed(c: ModelClassView) -> bool {
    &&& !c.provider.contains('/')
    &&& !c.family.contains('/')
    &&& !c.revision.contains('/')
    &&& !or_dash(c.embedding_space).contains('/')
    &&& !or_dash(c.quantization).contains('/')
}

/// Different classes name different pools, provided that no part of one of them
/// holds a slash, and that neither spells an absent part as a dash.
pub proof fn law_different_classes_have_different_pools(a: ModelClassView, b: ModelClassView)
    requires
        unslashed(a),
        a.embedding_space is None ==> b.embedding_space != Some("-"@),
        b.embedding_space is None ==> a.embedding_space != Some("-"@),
        a.quantization is None ==> b.quantization != Some("-"@),
        b.quantization is None ==> a.quantization != Some("-"@),
        a != b,
    ensures
        a.pool_key() != b.pool_key(),
{
    if a.pool_key() == b.pool_key() {
        assert(unslashed(b)) by {
            lemma_key_slashes(a);
            lemma_key_slashes(b);
        }
        lemma_regrouped(a);
        lemma_regrouped(b);
        lemma_same_head(a.provider, b.provider, after_provider(a), after_provider(b));
        lemma_same_head(a.family, b.family, after_family(a), after_family(b));
        lemma_same_head(a.revision, b.revision, after_revision(a), after_revision(b));
        lemma_same_head(
            or_dash(a.embedding_space),
            or_dash(b.embedding_space),
            or_dash(a.quantization),
            or_dash(b.quantization),
        );
        assert(a =~= b);
    }
}

spec fn after_revision(c: ModelClassView) -> Seq<char> {
    or_dash(c.embedding_space) + ("/"@ + or_dash(c.quantization))
}

spec fn after_family(c: ModelClassView) -> Seq<char> {
    c.revision + ("/"@ + after_revision(c))
}

spec fn after_provider(c: ModelClassView) -> Seq<char> {
    c.family + ("/"@ + after_family(c))
}

proof fn lemma_regrouped(c: ModelClassView)
    ensures
        c.pool_key() == c.provider + ("/"@ + after_provider(c)),
{
    let s3 = or_dash(c.embedding_space);
    let s4 = or_dash(c.quantization);
    let head = c.provider + "/"@ + c.family + "/"@;
    assert(head + c.revision + "/"@ + s3 + "/"@ + s4 =~= head + after_family(c));
    assert(head + after_family(c) =~= c.provider + ("/"@ + after_provider(c)));
}

/// How many slashes a text holds.
spec fn slashes(s: Seq<char>) -> nat {
    s.filter(|c: char| c == '/').len()
}

proof fn lemma_slashes_add(s: Seq<char>, t: Seq<char>)
    ensures
        slashes(s + t) == slashes(s) + slashes(t),
{
    Seq::filter_distributes_over_add(s, t, |c: char| c == '/');
}

proof fn lemma_no_slashes(s: Seq<char>)
    ensures
        slashes(s) == 0 <==> !s.contains('/'),
{
    let p = |c: char| c == '/';
    broadcast use vstd::seq_lib::group_filter_ensures;

    if s.contains('/') {
        let i = choose|i: int| 0 <= i < s.len() && s[i] == '/';
        s.lemma_filter_contains(p, i);
    }
    if slashes(s) > 0 {
        assert(s.filter(p).contains(s.filter(p)[0]));
        Seq::lemma_filter_contains_rev(s, p, s.filter(p)[0]);
    }
}

/// A key holds four slashes of its own, and those of its parts.
proof fn lemma_key_slashes(c: ModelClassView)
    ensures
        slashes(c.pool_key()) == 4 <==> unslashed(c),
{
    lemma_no_slashes(c.provider);
    lemma_no_slashes(c.family);
    lemma_no_slashes(c.revision);
    lemma_no_slashes(or_dash(c.embedding_space));
    lemma_no_slashes(or_dash(c.quantization));
    reveal_strlit("/");
    assert(slashes("/"@) == 1) by {
        let p = |x: char| x == '/';
        assert("/"@ =~= Seq::<char>::empty().push('/'));
        Seq::<char>::empty().lemma_filter_push('/', p);
        assert(Seq::<char>::empty().filter(p).len() == 0);
    }
    let s1 = c.provider + "/"@;
    let s2 = s1 + c.family;
    let s3 = s2 + "/"@;
    let s4 = s3 + c.revision;
    let s5 = s4 + "/"@;
    let s6 = s5 + or_dash(c.embedding_space);
    let s7 = s6 + "/"@;
    lemma_slashes_add(c.provider, "/"@);
    lemma_slashes_add(s1, c.family);
    lemma_slashes_add(s2, "/"@);
    lemma_slashes_add(s3, c.revision);
    lemma_slashes_add(s4, "/"@);
    lemma_slashes_add(s5, or_dash(c.embedding_space));
    lemma_slashes_add(s6, "/"@);
    lemma_slashes_add(s7, or_dash(c.quantization));
}

/// The part before the first slash, and the part after it, are each determined.
proof fn lemma_same_head(x: Seq<char>, y: Seq<char>, s: Seq<char>, t: Seq<char>)
    requires
        !x.contains('/'),
        !y.contains('/'),
        x + ("/"@ + s) == y + ("/"@ + t),
    ensures
        x == y,
        s == t,
{
    reveal_strlit("/");
    let u = x + ("/"@ + s);
    let v = y + ("/"@ + t);
    assert(u[x.len() as int] == '/');
    assert(v[y.len() as int] == '/');
    if x.len() < y.len() {
        assert(v[x.len() as int] == y[x.len() as int]);
    }
    if y.len() < x.len() {
        assert(u[y.len() as int] == x[y.len() as int]);
    }
    assert(x =~= u.take(x.len() as int));
    assert(y =~= v.take(x.len() as int));
    assert(s =~= u.skip(x.len() as int + 1));
    assert(t =~= v.skip(x.len() as int + 1));
}

/// Classes with different embedding spaces have nothing to share.
pub proof fn law_embedding_spaces_isolate(a: ModelClassView, b: ModelClassView)
    requires
        a.embedding_space != b.embedding_space,
    ensures
        a.compatibility(b) == Compatibility::Incompatible,
{
}

} // verus!
