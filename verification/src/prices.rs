//! Built-in default model prices, and looking a model up in a price table.
//!
//! Prices are in millionths of a dollar per thousand tokens.

use vstd::prelude::*;
use crate::text::{
    chars_of, lowercase, to_lowercase, string_push, has_prefix, occurs_at_exec, first_index, opt_index,
    lemma_first_index_push, lemma_first_index_prefix,
};

verus! {

/// Price entry for a single model.
#[derive(Clone, Copy, Debug, PartialEq, Eq, Structural)]
pub struct ModelPrice {
    /// Input cost per thousand tokens.
    pub input_per_1k: u64,
    /// Output cost per thousand tokens.
    pub output_per_1k: u64,
    /// Cached-input cost per thousand tokens, where the model has one.
    pub cached_input_per_1k: Option<u64>,
}

/// A model name as prices are keyed: lower-cased, spaces turned into dashes.
pub open spec fn normalized_name(s: Seq<char>) -> Seq<char> {
    lowercase(s).map_values(|c: char| if c == ' ' { '-' } else { c })
}

/// Lower-case `model` and turn its spaces into dashes.
pub fn normalize_model_name(model: &str) -> (r: String)
    ensures
        r@ == normalized_name(model@),
{
    let lower = to_lowercase(model);
    let v = chars_of(lower.as_str());
    let mut out = String::new();
    let mut i: usize = 0;
    while i < v.len()
        invariant
            i <= v@.len(),
            v@ == lowercase(model@),
            out@ == v@.subrange(0, i as int).map_values(|c: char| if c == ' ' { '-' } else { c }),
        decreases v.len() - i,
    {
        let c = v[i];
        string_push(&mut out, if c == ' ' { '-' } else { c });
        i = i + 1;
        assert(out@ =~= v@.subrange(0, i as int).map_values(|c: char| if c == ' ' { '-' } else { c }));
    }
    assert(v@.subrange(0, v@.len() as int) =~= v@);
    out
}

/// Two names are related by prefix when either starts with the other.
pub open spec fn prefix_related(a: Seq<char>, b: Seq<char>) -> bool {
    has_prefix(a, b) || has_prefix(b, a)
}

/// The price a table gives a normalized name: the first entry with exactly
/// that name, else the first entry whose name is a prefix of it or has it as
/// a prefix (`gpt-4o-2024-08-06` finds `gpt-4o`), else none.
pub open spec fn price_for(entries: Seq<(Seq<char>, ModelPrice)>, key: Seq<char>) -> Option<ModelPrice> {
    match first_index(entries, named(key)) {
        Some(i) => Some(entries[i].1),
        None => match first_index(entries, related(key)) {
            Some(i) => Some(entries[i].1),
            None => None,
        },
    }
}

/// An entry named exactly `key`.
pub open spec fn named(key: Seq<char>) -> spec_fn((Seq<char>, ModelPrice)) -> bool {
    |e: (Seq<char>, ModelPrice)| e.0 == key
}

/// An entry whose name is prefix-related to `key`.
pub open spec fn related(key: Seq<char>) -> spec_fn((Seq<char>, ModelPrice)) -> bool {
    |e: (Seq<char>, ModelPrice)| prefix_related(key, e.0)
}

/// A table of model prices, by model name.
pub struct PriceTable {
    entries: Vec<(String, ModelPrice)>,
}

/// The names and prices of a list of entries.
pub open spec fn entries_view(v: Seq<(String, ModelPrice)>) -> Seq<(Seq<char>, ModelPrice)> {
    v.map_values(|e: (String, ModelPrice)| (e.0@, e.1))
}

/// The built-in prices.
pub open spec fn default_entries() -> Seq<(Seq<char>, ModelPrice)> {
    seq![
        ("gpt-4o"@, ModelPrice { input_per_1k: 2_500_000, output_per_1k: 10_000_000, cached_input_per_1k: Some(1_250_000) }),
        ("gpt-4o-mini"@, ModelPrice { input_per_1k: 150_000, output_per_1k: 600_000, cached_input_per_1k: Some(75_000) }),
        ("o1"@, ModelPrice { input_per_1k: 15_000_000, output_per_1k: 60_000_000, cached_input_per_1k: Some(7_500_000) }),
        ("o1-mini"@, ModelPrice { input_per_1k: 1_100_000, output_per_1k: 4_400_000, cached_input_per_1k: Some(550_000) }),
        ("o3-mini"@, ModelPrice { input_per_1k: 1_100_000, output_per_1k: 4_400_000, cached_input_per_1k: Some(550_000) }),
        ("llama-3"@, ModelPrice { input_per_1k: 50_000, output_per_1k: 80_000, cached_input_per_1k: None }),
        ("llama-3.1"@, ModelPrice { input_per_1k: 50_000, output_per_1k: 80_000, cached_input_per_1k: None }),
        ("llama-3.3"@, ModelPrice { input_per_1k: 50_000, output_per_1k: 80_000, cached_input_per_1k: None }),
        ("mixtral-8x7b"@, ModelPrice { input_per_1k: 240_000, output_per_1k: 240_000, cached_input_per_1k: None }),
        ("deepseek-chat"@, ModelPrice { input_per_1k: 270_000, output_per_1k: 1_100_000, cached_input_per_1k: Some(70_000) }),
        ("deepseek-reasoner"@, ModelPrice { input_per_1k: 550_000, output_per_1k: 2_190_000, cached_input_per_1k: Some(140_000) }),
        ("gemini-1.5-pro"@, ModelPrice { input_per_1k: 1_250_000, output_per_1k: 5_000_000, cached_input_per_1k: Some(315_000) }),
        ("gemini-1.5-flash"@, ModelPrice { input_per_1k: 75_000, output_per_1k: 300_000, cached_input_per_1k: Some(18_000) }),
    ]
}

fn entry(name: &str, input: u64, output: u64, cached: Option<u64>) -> (r: (String, ModelPrice))
    ensures
        r.0@ == name@,
        r.1 == (ModelPrice { input_per_1k: input, output_per_1k: output, cached_input_per_1k: cached }),
{
    (name.to_owned(), ModelPrice { input_per_1k: input, output_per_1k: output, cached_input_per_1k: cached })
}

impl PriceTable {
    pub closed spec fn view(&self) -> Seq<(Seq<char>, ModelPrice)> {
        entries_view(self.entries@)
    }

    /// The built-in table.
    pub fn builtin() -> (t: Self)
        ensures
            t.view() == default_entries(),
    {
        let mut v: Vec<(String, ModelPrice)> = Vec::new();
        v.push(entry("gpt-4o", 2_500_000, 10_000_000, Some(1_250_000)));
        v.push(entry("gpt-4o-mini", 150_000, 600_000, Some(75_000)));
        v.push(entry("o1", 15_000_000, 60_000_000, Some(7_500_000)));
        v.push(entry("o1-mini", 1_100_000, 4_400_000, Some(550_000)));
        v.push(entry("o3-mini", 1_100_000, 4_400_000, Some(550_000)));
        v.push(entry("llama-3", 50_000, 80_000, None));
        v.push(entry("llama-3.1", 50_000, 80_000, None));
        v.push(entry("llama-3.3", 50_000, 80_000, None));
        v.push(entry("mixtral-8x7b", 240_000, 240_000, None));
        v.push(entry("deepseek-chat", 270_000, 1_100_000, Some(70_000)));
        v.push(entry("deepseek-reasoner", 550_000, 2_190_000, Some(140_000)));
        v.push(entry("gemini-1.5-pro", 1_250_000, 5_000_000, Some(315_000)));
        v.push(entry("gemini-1.5-flash", 75_000, 300_000, Some(18_000)));
        let t = PriceTable { entries: v };
        assert(t.view() =~= default_entries());
        t
    }

    /// A table holding exactly `entries`, in order.
    pub fn from_entries(entries: Vec<(String, ModelPrice)>) -> (t: Self)
        ensures
            t.view() == entries_view(entries@),
    {
        PriceTable { entries }
    }

    /// The number of entries.
    pub fn len(&self) -> (n: usize)
        ensures
            n == self.view().len(),
    {
        self.entries.len()
    }

    /// A copy of every entry, in order.
    pub fn entries(&self) -> (r: Vec<(String, ModelPrice)>)
        ensures
            entries_view(r@) == self.view(),
    {
        let mut r: Vec<(String, ModelPrice)> = Vec::new();
        let mut i: usize = 0;
        while i < self.entries.len()
            invariant
                i <= self.entries@.len(),
                entries_view(r@) == self.view().subrange(0, i as int),
            decreases self.entries.len() - i,
        {
            let e = &self.entries[i];
            let name = e.0.clone();
            let ghost prev = r@;
            r.push((name, e.1));
            assert(entries_view(r@) =~= entries_view(prev).push(self.view()[i as int]));
            i = i + 1;
            assert(entries_view(r@) =~= self.view().subrange(0, i as int));
        }
        assert(self.view().subrange(0, self.view().len() as int) =~= self.view());
        r
    }

    fn first_match(&self, key: &Vec<char>, exact: bool) -> (r: Option<usize>)
        ensures
            r matches Some(i) ==> i < self.view().len(),
            opt_index(r) == first_index(self.view(), if exact { named(key@) } else { related(key@) }),
    {
        let ghost f = if exact { named(key@) } else { related(key@) };
        let ghost s = self.view();
        let mut i: usize = 0;
        assert(s.subrange(0, 0) =~= Seq::<(Seq<char>, ModelPrice)>::empty());
        while i < self.entries.len()
            invariant
                i <= self.entries@.len(),
                s == self.view(),
                s.len() == self.entries@.len(),
                first_index(s.subrange(0, i as int), f) == None::<int>,
                f == if exact { named(key@) } else { related(key@) },
            decreases self.entries.len() - i,
        {
            proof {
                lemma_first_index_push(s, f, i as int);
            }
            let name = chars_of(self.entries[i].0.as_str());
            assert(s[i as int].0 == name@);
            let hit = if exact {
                name.len() == key.len() && occurs_at_exec(&name, key, 0)
            } else {
                occurs_at_exec(key, &name, 0) || occurs_at_exec(&name, key, 0)
            };
            proof {
                if name@.len() == key@.len() {
                    assert(name@.subrange(0, key@.len() as int) =~= name@);
                }
            }
            if hit {
                proof {
                    lemma_first_index_prefix(s, f, i as int + 1);
                }
                return Some(i);
            }
            i = i + 1;
        }
        assert(s.subrange(0, s.len() as int) =~= s);
        None
    }

    /// The price of `model`, looked up by its normalized name.
    pub fn lookup(&self, model: &str) -> (r: Option<ModelPrice>)
        ensures
            r == price_for(self.view(), normalized_name(model@)),
    {
        let key_s = normalize_model_name(model);
        let key = chars_of(key_s.as_str());
        match self.first_match(&key, true) {
            Some(i) => Some(self.entries[i].1),
            None => match self.first_match(&key, false) {
                Some(i) => Some(self.entries[i].1),
                None => None,
            },
        }
    }
}

} // verus!
