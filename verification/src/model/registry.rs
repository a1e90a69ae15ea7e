//! The registry of strategy models, keyed by model key and version.
use vstd::prelude::*;

use crate::model::baseline::{BaselineDirectionModel, StrategyModel, BASELINE_DIRECTION_KEY, BASELINE_DIRECTION_VERSION};
use crate::text::{lemma_text_lt_irreflexive, lemma_text_lt_total, lemma_text_lt_trans, str_eq, string_of, text_less, text_lt};

verus! {

/// The order of (key, version) pairs: by key, then by version.
pub open spec fn pair_lt(a: (Seq<char>, Seq<char>), b: (Seq<char>, Seq<char>)) -> bool {
    text_lt(a.0, b.0) || (a.0 == b.0 && text_lt(a.1, b.1))
}

proof fn lemma_pair_lt_trans(a: (Seq<char>, Seq<char>), b: (Seq<char>, Seq<char>), c: (Seq<char>, Seq<char>))
    requires
        pair_lt(a, b),
        pair_lt(b, c),
    ensures
        pair_lt(a, c),
{
    if text_lt(a.0, b.0) && text_lt(b.0, c.0) {
        lemma_text_lt_trans(a.0, b.0, c.0);
    } else if a.0 == b.0 && b.0 == c.0 {
        lemma_text_lt_trans(a.1, b.1, c.1);
    }
}

proof fn lemma_pair_lt_total(a: (Seq<char>, Seq<char>), b: (Seq<char>, Seq<char>))
    ensures
        a == b || pair_lt(a, b) || pair_lt(b, a),
        !(pair_lt(a, b) && pair_lt(b, a)),
        !pair_lt(a, a),
{
    lemma_text_lt_total(a.0, b.0);
    lemma_text_lt_total(a.1, b.1);
    lemma_text_lt_irreflexive(a.0);
    lemma_text_lt_irreflexive(a.1);
    lemma_text_lt_irreflexive(b.0);
}

/// Strategy models by (key, version), each pair once, in pair order.
pub struct ModelRegistry<M: StrategyModel> {
    models: Vec<M>,
}

/// The (key, version) pair of a model.
pub open spec fn pair_of<M: StrategyModel>(m: M) -> (Seq<char>, Seq<char>) {
    (m.model_key(), m.model_version())
}

impl<M: StrategyModel> ModelRegistry<M> {
    /// The registered models in pair order.
    pub closed spec fn models(self) -> Seq<M> {
        self.models@
    }

    /// Models strictly ordered by (key, version).
    pub open spec fn wf(self) -> bool {
        forall|i: int, j: int|
            0 <= i < j < self.models().len() ==> pair_lt(pair_of(self.models()[i]), pair_of(self.models()[j]))
    }

    /// The model registered under `key` and `version`, if any.
    pub open spec fn entry(self, key: Seq<char>, version: Seq<char>) -> Option<M> {
        if exists|i: int| 0 <= i < self.models().len() && pair_of(#[trigger] self.models()[i]) == (key, version) {
            Some(self.models()[choose|i: int| 0 <= i < self.models().len() && pair_of(#[trigger] self.models()[i]) == (key, version)])
        } else {
            None
        }
    }

    /// An empty registry.
    pub fn new() -> (r: Self)
        ensures
            r.wf(),
            r.models().len() == 0,
    {
        ModelRegistry { models: Vec::new() }
    }

    proof fn lemma_entry_at(self, i: int)
        requires
            self.wf(),
            0 <= i < self.models().len(),
        ensures
            self.entry(pair_of(self.models()[i]).0, pair_of(self.models()[i]).1) == Some(self.models()[i]),
    {
        let p = pair_of(self.models()[i]);
        assert(pair_of(self.models()[i]) == (p.0, p.1));
        let j = choose|j: int| 0 <= j < self.models().len() && pair_of(#[trigger] self.models()[j]) == (p.0, p.1);
        lemma_pair_lt_total(p, p);
        if j < i {
            assert(pair_lt(pair_of(self.models()[j]), pair_of(self.models()[i])));
        } else if j > i {
            assert(pair_lt(pair_of(self.models()[i]), pair_of(self.models()[j])));
        }
    }

    /// Registers a model, replacing one with the same key and version.
    pub fn register(&mut self, model: M)
        requires
            old(self).wf(),
        ensures
            final(self).wf(),
            final(self).entry(model.model_key(), model.model_version()) == Some(model),
            forall|k: Seq<char>, v: Seq<char>|
                (k, v) != pair_of(model) ==> #[trigger] final(self).entry(k, v) == old(self).entry(k, v),
    {
        let key = model.key();
        let version = model.version();
        let ghost p = pair_of(model);
        let ghost before = self.models@;
        assert(before == old(self).models());
        assert(forall|a: int, b: int|
            0 <= a < b < before.len() ==> pair_lt(pair_of(#[trigger] before[a]), pair_of(#[trigger] before[b])));
        let mut i: usize = 0;
        while i < self.models.len() && (text_less(self.models[i].key(), key) || (str_eq(
            self.models[i].key(),
            key,
        ) && text_less(self.models[i].version(), version)))
            invariant
                i <= self.models.len(),
                self.models@ == before,
                key@ == p.0,
                version@ == p.1,
                forall|j: int| 0 <= j < i ==> pair_lt(pair_of(#[trigger] self.models@[j]), p),
            decreases self.models.len() - i,
        {
            i = i + 1;
        }
        let same = i < self.models.len() && str_eq(self.models[i].key(), key) && str_eq(
            self.models[i].version(),
            version,
        );
        proof {
            if i < before.len() && !same {
                lemma_pair_lt_total(pair_of(before[i as int]), p);
                assert(pair_lt(p, pair_of(before[i as int])));
            }
        }
        if same {
            self.models.set(i, model);
        } else {
            self.models.insert(i, model);
        }
        proof {
            let after = self.models@;
            let m = after[i as int];
            assert(pair_of(m) == p);
            assert forall|a: int, b: int| 0 <= a < b < after.len() implies pair_lt(pair_of(after[a]), pair_of(after[b])) by {
                if same {
                    if a != i && b != i {
                        assert(after[a] == before[a] && after[b] == before[b]);
                    } else if a == i {
                        assert(after[b] == before[b]);
                        assert(pair_lt(pair_of(before[a]), pair_of(before[b])));
                    } else {
                        assert(after[a] == before[a]);
                        assert(pair_lt(pair_of(before[a]), pair_of(before[b])));
                    }
                } else {
                    let a0 = if a < i { a } else { a - 1 };
                    let b0 = if b < i { b } else { b - 1 };
                    if a < i && b > i {
                        assert(after[a] == before[a0] && after[b] == before[b0]);
                        assert(pair_lt(p, pair_of(before[i as int])));
                        if b0 > i {
                            assert(pair_lt(pair_of(before[i as int]), pair_of(before[b0])));
                            lemma_pair_lt_trans(p, pair_of(before[i as int]), pair_of(before[b0]));
                        }
                        lemma_pair_lt_trans(pair_of(before[a0]), p, pair_of(before[b0]));
                    } else if a == i {
                        assert(after[b] == before[b0]);
                        if b0 > i {
                            assert(pair_lt(pair_of(before[i as int]), pair_of(before[b0])));
                            lemma_pair_lt_trans(p, pair_of(before[i as int]), pair_of(before[b0]));
                        }
                    } else if b == i {
                        assert(after[a] == before[a0]);
                    } else {
                        assert(after[a] == before[a0] && after[b] == before[b0]);
                    }
                }
            }
            self.lemma_entry_at(i as int);
            assert forall|k: Seq<char>, v: Seq<char>| (k, v) != p implies #[trigger] self.entry(k, v) == old(self).entry(k, v) by {
                if exists|j: int| 0 <= j < before.len() && pair_of(#[trigger] before[j]) == (k, v) {
                    let j = choose|j: int| 0 <= j < before.len() && pair_of(#[trigger] before[j]) == (k, v);
                    old(self).lemma_entry_at(j);
                    let j2 = if same || j < i { j } else { j + 1 };
                    assert(j != i || !same);
                    assert(after[j2] == before[j]);
                    self.lemma_entry_at(j2);
                } else {
                    assert forall|j: int| 0 <= j < after.len() implies pair_of(#[trigger] after[j]) != (k, v) by {
                        if j != i {
                            let j0 = if same || j < i { j } else { j - 1 };
                            assert(after[j] == before[j0]);
                        }
                    }
                }
            }
        }
    }

    /// The model registered under `key` and `version`.
    pub fn get(&self, model_key: &str, version: &str) -> (r: Option<&M>)
        requires
            self.wf(),
        ensures
            match r {
                Some(m) => self.entry(model_key@, version@) == Some(*m),
                None => self.entry(model_key@, version@) is None,
            },
    {
        let mut i: usize = 0;
        while i < self.models.len()
            invariant
                self.wf(),
                i <= self.models.len(),
                forall|j: int| 0 <= j < i ==> pair_of(#[trigger] self.models@[j]) != (model_key@, version@),
            decreases self.models.len() - i,
        {
            if str_eq(self.models[i].key(), model_key) && str_eq(self.models[i].version(), version) {
                proof {
                    self.lemma_entry_at(i as int);
                }
                return Some(&self.models[i]);
            }
            i = i + 1;
        }
        None
    }

    /// The (key, version) pairs registered, in order.
    pub fn model_versions(&self) -> (r: Vec<(String, String)>)
        ensures
            r@.len() == self.models().len(),
            forall|i: int|
                0 <= i < r@.len() ==> (#[trigger] r@[i]).0@ == self.models()[i].model_key() && r@[i].1@
                    == self.models()[i].model_version(),
    {
        let mut out: Vec<(String, String)> = Vec::new();
        let mut i: usize = 0;
        while i < self.models.len()
            invariant
                i <= self.models.len(),
                out@.len() == i,
                forall|j: int|
                    0 <= j < i ==> (#[trigger] out@[j]).0@ == self.models@[j].model_key() && out@[j].1@
                        == self.models@[j].model_version(),
            decreases self.models.len() - i,
        {
            out.push((string_of(self.models[i].key()), string_of(self.models[i].version())));
            i = i + 1;
        }
        out
    }
}

impl ModelRegistry<BaselineDirectionModel> {
    /// The registry of the built-in models: the BTC 5m baseline.
    pub fn built_ins() -> (r: Self)
        ensures
            r.wf(),
            r.models().len() == 1,
            r.entry("baseline_direction"@, "0.1.0"@) is Some,
    {
        let mut registry = Self::new();
        registry.register(BaselineDirectionModel::btc5m_default());
        proof {
            registry.lemma_len_one();
        }
        registry
    }

    /// A registry of one model.
    pub fn from_model(model: BaselineDirectionModel) -> (r: Self)
        ensures
            r.wf(),
            r.entry(model.model_key(), model.model_version()) == Some(model),
    {
        let mut registry = Self::new();
        registry.register(model);
        registry
    }

    proof fn lemma_len_one(self)
        requires
            self.wf(),
        ensures
            self.models().len() <= 1,
    {
        if self.models().len() > 1 {
            lemma_pair_lt_total(pair_of(self.models()[0]), pair_of(self.models()[0]));
            assert(pair_lt(pair_of(self.models()[0]), pair_of(self.models()[1])));
        }
    }
}

} // verus!
