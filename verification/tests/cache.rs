use condesate::cache::entry::{
    Admitted, CacheEntry, CacheKey, Candidate, Demand, RejectReason, Sidecar, ValueClass,
};
use condesate::cache::pool::{
    reading_places, CachePool, CacheRegistry, PoolUsage, StandardValidator, Validator,
};
use condesate::security::audit::{FixedClock, MemoryAudit};
use condesate::security::engine::RuleSetPolicy;
use condesate::security::identity::{
    Compatibility, GovernanceLabel, ModelClass, TenantId, TrustTier,
};
use condesate::security::kernel::{AgentManifest, GuardedServices, Kernel};
use condesate::security::patterns::{Action, ModelClassPattern, ResourcePattern};
use condesate::security::rules::{Condition, GrantSet, Rule, SubjectMatch};
use condesate::swarm::service::ServiceHandle;
use condesate::types::{Failure, HarnessId};

fn class(family: &str, revision: &str, space: Option<&str>) -> ModelClass {
    ModelClass {
        provider: "anthropic".into(),
        family: family.into(),
        revision: revision.into(),
        embedding_space: space.map(str::to_string),
        quantization: None,
    }
}

#[test]
fn identical_classes_share_one_pool() {
    let a = class("opus", "opus-5", Some("emb-v1"));
    let b = class("opus", "opus-5", Some("emb-v1"));
    assert_eq!(a.pool_key(), b.pool_key());
    assert_eq!(a.compatibility(&b), Compatibility::Identical);
}

#[test]
fn quantization_splits_the_pool() {
    let a = class("opus", "opus-5", Some("emb-v1"));
    let mut b = a.clone();
    b.quantization = Some("int8".into());
    assert_ne!(a.pool_key(), b.pool_key());
    // Same family and space, so text artifacts still cross...
    assert_eq!(a.compatibility(&b), Compatibility::SameFamily);
    // ...but KV blocks do not.
    assert!(a.compatibility(&b) < ValueClass::KvBlock.min_compatibility());
}

#[test]
fn kv_blocks_never_cross_revisions_but_summaries_do() {
    let opus = class("opus", "opus-5", Some("emb-v1"));
    let sonnet = class("sonnet", "sonnet-5", Some("emb-v1"));
    let compat = opus.compatibility(&sonnet);

    assert_eq!(compat, Compatibility::SameEmbeddingSpace);
    assert!(compat < ValueClass::KvBlock.min_compatibility());
    assert!(compat < ValueClass::Summary.min_compatibility());
    assert!(compat >= ValueClass::RagChunk.min_compatibility());
}

#[test]
fn different_embedding_space_isolates_completely() {
    let a = class("opus", "opus-5", Some("emb-v1"));
    let b = class("opus", "opus-5", Some("emb-v2"));
    assert_eq!(a.compatibility(&b), Compatibility::Incompatible);
}

#[test]
fn round_budget_respects_reserve_and_hard_cap() {
    let usage = PoolUsage {
        capacity_bytes: 1_000,
        used_bytes: 600,
        reserve_bytes: 100,
        eviction_budget_bytes: 50,
        entries: 12,
    };
    assert_eq!(usage.free_after_reserve(), 300);
    assert_eq!(usage.round_budget(1_000), 350);
    assert_eq!(usage.round_budget(200), 200, "hard cap wins");

    let full = PoolUsage { used_bytes: 1_000, ..usage };
    assert_eq!(full.free_after_reserve(), 0);
    assert_eq!(full.round_budget(1_000), 50, "only the eviction budget");
}

/// A pool that answers every demand with all it holds, or fails.
struct Shelf {
    class: ModelClass,
    held: Vec<CacheEntry>,
    broken: bool,
}

impl CachePool for Shelf {
    fn class(&self) -> &ModelClass {
        &self.class
    }

    fn get(&self, key: &CacheKey) -> Result<Option<CacheEntry>, Failure> {
        Ok(self.held.iter().find(|e| e.sidecar.key == *key).cloned())
    }

    fn lookup(&self, demand: &Demand) -> Result<Vec<Candidate>, Failure> {
        if self.broken {
            return Err(Failure("shelf is broken".into()));
        }
        let compatibility = demand.asker.compatibility(&self.class);
        let offer = |e: &CacheEntry| Candidate { entry: e.clone(), distance: 0, compatibility };
        Ok(self.held.iter().map(offer).collect())
    }

    fn put(&mut self, entry: CacheEntry) -> Result<Admitted, Failure> {
        self.held.push(entry);
        Ok(Admitted::Stored)
    }

    fn invalidate(&mut self, key: &CacheKey) -> Result<bool, Failure> {
        let before = self.held.len();
        self.held.retain(|e| e.sidecar.key != *key);
        Ok(self.held.len() < before)
    }

    fn sidecars(&self) -> Result<Vec<Sidecar>, Failure> {
        Ok(self.held.iter().map(|e| e.sidecar.clone()).collect())
    }

    fn usage(&self) -> Result<PoolUsage, Failure> {
        Ok(PoolUsage { entries: self.held.len() as u64, ..Default::default() })
    }
}

/// A registry that holds its pools in a list.
struct Library(Vec<Shelf>);

impl CacheRegistry for Library {
    type Pool = Shelf;

    fn pool_for(&mut self, class: &ModelClass) -> Result<&Shelf, Failure> {
        let at = match self.0.iter().position(|p| p.class == *class) {
            Some(i) => i,
            None => {
                self.0.push(shelf(class.clone(), vec![]));
                self.0.len() - 1
            }
        };
        Ok(&self.0[at])
    }

    fn pools(&self) -> Result<&Vec<Shelf>, Failure> {
        Ok(&self.0)
    }
}

/// A registry that is down.
struct Offline;

impl CacheRegistry for Offline {
    type Pool = Shelf;

    fn pool_for(&mut self, _class: &ModelClass) -> Result<&Shelf, Failure> {
        Err(Failure("registry is down".into()))
    }

    fn pools(&self) -> Result<&Vec<Shelf>, Failure> {
        Err(Failure("registry is down".into()))
    }
}

fn entry(key: &str, class: &ModelClass, kind: ValueClass, tenant: &str, at: u64) -> CacheEntry {
    CacheEntry {
        sidecar: Sidecar {
            key: CacheKey::new(key),
            class: class.clone(),
            value_class: kind,
            embedding: None,
            label: GovernanceLabel::plain(TenantId::new(tenant)),
            bytes: 3,
            written_at_ms: at,
            ttl_ms: None,
            hits: 0,
            digest: String::new(),
        },
        value: vec![1, 2, 3],
    }
}

fn shelf(class: ModelClass, held: Vec<CacheEntry>) -> Shelf {
    Shelf { class, held, broken: false }
}

fn demand(asker: &ModelClass, kind: Option<ValueClass>) -> Demand {
    Demand {
        asker: asker.clone(),
        value_class: kind,
        key: None,
        embedding: None,
        max_distance: 0,
        limit: 10,
        hotness: 0,
    }
}

type TestKernel = Kernel<RuleSetPolicy, MemoryAudit, FixedClock>;

/// A reader of tenant `acme` at time 1000, who may read cached values younger
/// than 500 ms.
fn reader() -> (TestKernel, GuardedServices) {
    let grants = vec![Rule::allow(
        "fresh",
        SubjectMatch::agent("reader"),
        &[Action::Read],
        ResourcePattern::Cache { class: ModelClassPattern::default(), value_class: None },
    )
    .with_conditions(vec![Condition::FreshnessUnder { max_age_ms: 500 }])];
    let kernel = Kernel::new(
        GrantSet::new(grants.clone()),
        RuleSetPolicy::new(),
        MemoryAudit::new(),
        FixedClock(1_000),
    );
    let manifest = AgentManifest {
        harness: HarnessId::new("reader"),
        agent: "reader".into(),
        model_class: class("opus", "opus-5", Some("emb-v1")),
        tenant: TenantId::new("acme"),
        requested_trust: TrustTier::Standard,
        requested: grants,
        cache_classes: vec![],
    };
    let adm = kernel.admit_agent(&manifest, None);
    let raw = ServiceHandle { me: HarnessId::new("reader"), roster: vec![] };
    let svc = kernel.attach(&adm, raw);
    (kernel, svc)
}

fn keys(found: &[Candidate]) -> Vec<&str> {
    found.iter().map(|c| c.entry.sidecar.key.0.as_str()).collect()
}

#[test]
fn pools_are_read_most_compatible_first() {
    let mine = class("opus", "opus-5", Some("emb-v1"));
    let older = class("opus", "opus-4", Some("emb-v1"));
    let other = class("sonnet", "sonnet-5", Some("emb-v1"));
    let alien = class("opus", "opus-5", Some("emb-v2"));
    let pools = vec![
        shelf(other, vec![]),
        shelf(alien, vec![]),
        shelf(older.clone(), vec![]),
        shelf(mine.clone(), vec![]),
        shelf(older, vec![]),
    ];
    let order = reading_places(&pools, &mine, Compatibility::SameEmbeddingSpace);
    assert_eq!(order, vec![3, 2, 4, 0]);
    assert_eq!(reading_places(&pools, &mine, Compatibility::SameFamily), vec![3, 2, 4]);
    assert_eq!(reading_places(&pools, &mine, Compatibility::Incompatible).len(), 5);
    let library = Library(pools);
    let asked = library.compatible_pools(&mine, Compatibility::SameFamily).unwrap();
    let revisions: Vec<&str> = asked.iter().map(|p| p.class().revision.as_str()).collect();
    assert_eq!(revisions, vec!["opus-5", "opus-4", "opus-4"]);
}

#[test]
fn a_cached_value_passes_three_gates_or_stays_hidden() {
    let mine = class("opus", "opus-5", Some("emb-v1"));
    let older = class("opus", "opus-4", Some("emb-v1"));
    let (mut kernel, svc) = reader();
    let pools = Library(vec![
        shelf(
            older.clone(),
            vec![
                // Text crosses revisions, tensors do not.
                entry("older-summary", &older, ValueClass::Summary, "acme", 900),
                entry("older-kv", &older, ValueClass::KvBlock, "acme", 900),
            ],
        ),
        shelf(
            mine.clone(),
            vec![
                entry("kv", &mine, ValueClass::KvBlock, "acme", 900),
                entry("foreign", &mine, ValueClass::Summary, "globex", 900),
                entry("stale", &mine, ValueClass::Summary, "acme", 500),
                entry("chunk", &mine, ValueClass::RagChunk, "acme", 501),
            ],
        ),
    ]);
    let found = svc.cache_lookup(&mut kernel, Some(&pools), &demand(&mine, None)).unwrap();
    assert_eq!(keys(&found), vec!["kv", "chunk", "older-summary"]);
    // One check per reusable candidate: `older-kv` never reached the policy.
    assert_eq!(kernel.audit.events().len(), 5);
    assert_eq!(kernel.audit.refusals().len(), 2);
}

#[test]
fn the_demanded_class_sets_the_floor_on_pools() {
    let mine = class("opus", "opus-5", Some("emb-v1"));
    let older = class("opus", "opus-4", Some("emb-v1"));
    let (mut kernel, svc) = reader();
    let mut broken = shelf(older, vec![]);
    broken.broken = true;
    let pools = Library(vec![
        shelf(mine.clone(), vec![entry("kv", &mine, ValueClass::KvBlock, "acme", 900)]),
        broken,
    ]);
    // Tensors are sought only in pools of the same class, so the broken pool is
    // not even asked.
    let tensors = demand(&mine, Some(ValueClass::KvBlock));
    let found = svc.cache_lookup(&mut kernel, Some(&pools), &tensors).unwrap();
    assert_eq!(keys(&found), vec!["kv"]);
    // A broader demand reaches it, and the read fails as a whole.
    let any = demand(&mine, None);
    let failed = svc.cache_lookup(&mut kernel, Some(&pools), &any).unwrap_err();
    assert_eq!(failed.0, "shelf is broken");
    assert_eq!(kernel.audit.events().len(), 2);
}

#[test]
fn without_a_cache_there_is_nothing_to_find() {
    let (mut kernel, svc) = reader();
    let mine = class("opus", "opus-5", Some("emb-v1"));
    let none: Option<&Library> = None;
    assert!(svc.cache_lookup(&mut kernel, none, &demand(&mine, None)).unwrap().is_empty());
    let err = svc.cache_lookup(&mut kernel, Some(&Offline), &demand(&mine, None)).unwrap_err();
    assert_eq!(err.0, "registry is down");
    assert!(kernel.audit.events().is_empty());
}

#[test]
fn equal_classes_are_routed_to_one_pool() {
    let mut library = Library(vec![]);
    let mine = class("opus", "opus-5", Some("emb-v1"));
    assert_eq!(library.pool_for(&mine).unwrap().class, mine);
    assert_eq!(library.pool_for(&mine.clone()).unwrap().class, mine);
    library.pool_for(&class("opus", "opus-4", Some("emb-v1"))).unwrap();
    assert_eq!(library.pools().unwrap().len(), 2);
}

#[test]
fn an_entry_expires_once_older_than_its_lifetime() {
    let mine = class("opus", "opus-5", Some("emb-v1"));
    let mut sidecar = entry("k", &mine, ValueClass::Plan, "acme", 100).sidecar;
    assert!(!sidecar.is_expired(u64::MAX));
    sidecar.ttl_ms = Some(50);
    assert_eq!(sidecar.age_ms(150), 50);
    assert!(!sidecar.is_expired(150));
    assert!(sidecar.is_expired(151));
    assert_eq!(sidecar.age_ms(99), 0, "a clock that went back");
}

#[test]
fn the_missing_validator_refuses_everything() {
    let mine = class("opus", "opus-5", Some("emb-v1"));
    let e = entry("k", &mine, ValueClass::Plan, "acme", 100);
    assert_eq!(
        StandardValidator.validate(&e, &mine, 100),
        Err(RejectReason::ValidatorUnavailable)
    );
}

#[test]
fn every_part_of_a_class_tells_its_pool_apart() {
    let class = |provider: &str, space: Option<&str>, quantization: Option<&str>| ModelClass {
        provider: provider.into(),
        family: "opus".into(),
        revision: "opus-5".into(),
        embedding_space: space.map(|s| s.to_string()),
        quantization: quantization.map(|s| s.to_string()),
    };
    let classes = [
        class("anthropic", None, None),
        class("anthropic", Some("emb-v1"), None),
        class("anthropic", None, Some("int8")),
        class("local", None, None),
    ];
    for (i, a) in classes.iter().enumerate() {
        for (j, b) in classes.iter().enumerate() {
            assert_eq!(a.pool_key() == b.pool_key(), i == j);
        }
    }
}
