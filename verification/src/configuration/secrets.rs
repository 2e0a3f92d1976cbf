//! Secrets read from files: the file name, lower-cased, is the key and the
//! trimmed content is the value.
use vstd::prelude::*;
use vstd::string::*;
use crate::configuration::directory::{DirectoryEntry, DirectorySnapshot};
use crate::text::{is_white_space, lemma_trimmed_edges, lowercase, text_lowercase, trim, trim_text};
use crate::validation::same_text;

verus! {

/// The map that a sequence of key-value pairs gives when they are inserted
/// in order, a later pair replacing an earlier one with the same key.
pub open spec fn pairs_map(s: Seq<(String, String)>) -> Map<Seq<char>, Seq<char>>
    decreases s.len(),
{
    if s.len() == 0 {
        Map::empty()
    } else {
        pairs_map(s.subrange(0, s.len() - 1)).insert(s[s.len() - 1].0@, s[s.len() - 1].1@)
    }
}

/// No two pairs have the same key.
pub open spec fn distinct_keys(s: Seq<(String, String)>) -> bool {
    forall|i: int, j: int| 0 <= i < s.len() && 0 <= j < s.len() && i != j ==> #[trigger] s[i].0@ != #[trigger] s[j].0@
}

proof fn lemma_pairs_map(s: Seq<(String, String)>)
    requires
        distinct_keys(s),
    ensures
        pairs_map(s).dom().finite(),
        pairs_map(s).dom().len() == s.len(),
        forall|i: int| 0 <= i < s.len() ==> #[trigger] pairs_map(s).contains_key(s[i].0@)
            && pairs_map(s)[s[i].0@] == s[i].1@,
        forall|k: Seq<char>| #[trigger] pairs_map(s).contains_key(k) ==> exists|i: int| 0 <= i < s.len() && s[i].0@ == k,
    decreases s.len(),
{
    if s.len() > 0 {
        let init = s.subrange(0, s.len() - 1);
        assert(distinct_keys(init)) by {
            assert forall|i: int, j: int| 0 <= i < init.len() && 0 <= j < init.len() && i != j implies #[trigger] init[i].0@ != #[trigger] init[j].0@ by {
                assert(init[i] == s[i] && init[j] == s[j]);
            }
        }
        lemma_pairs_map(init);
        let last = s[s.len() - 1];
        assert(!pairs_map(init).contains_key(last.0@)) by {
            if pairs_map(init).contains_key(last.0@) {
                let i = choose|i: int| 0 <= i < init.len() && init[i].0@ == last.0@;
                assert(s[i] == init[i]);
                assert(s[i].0@ != s[s.len() - 1].0@);
            }
        }
        assert forall|i: int| 0 <= i < s.len() implies #[trigger] pairs_map(s).contains_key(s[i].0@)
            && pairs_map(s)[s[i].0@] == s[i].1@ by {
            if i < s.len() - 1 {
                assert(s[i] == init[i]);
                assert(s[i].0@ != last.0@);
            }
        }
        assert forall|k: Seq<char>| #[trigger] pairs_map(s).contains_key(k) implies exists|i: int| 0 <= i < s.len() && s[i].0@ == k by {
            if k != last.0@ {
                let i = choose|i: int| 0 <= i < init.len() && init[i].0@ == k;
                assert(s[i] == init[i]);
            } else {
                assert(s[s.len() - 1].0@ == k);
            }
        }
    }
}

proof fn lemma_pairs_map_update(s: Seq<(String, String)>, i: int, p: (String, String))
    requires
        distinct_keys(s),
        0 <= i < s.len(),
        s[i].0@ == p.0@,
    ensures
        distinct_keys(s.update(i, p)),
        pairs_map(s.update(i, p)) == pairs_map(s).insert(p.0@, p.1@),
{
    let u = s.update(i, p);
    assert(distinct_keys(u)) by {
        assert forall|a: int, b: int| 0 <= a < u.len() && 0 <= b < u.len() && a != b implies #[trigger] u[a].0@ != #[trigger] u[b].0@ by {
            assert(u[a].0@ == s[a].0@);
            assert(u[b].0@ == s[b].0@);
        }
    }
    lemma_pairs_map(s);
    lemma_pairs_map(u);
    assert(pairs_map(u) =~= pairs_map(s).insert(p.0@, p.1@)) by {
        assert forall|k: Seq<char>| #[trigger] pairs_map(u).contains_key(k) <==> pairs_map(s).insert(p.0@, p.1@).contains_key(k) by {
            if pairs_map(u).contains_key(k) {
                let j = choose|j: int| 0 <= j < u.len() && u[j].0@ == k;
                assert(u[j].0@ == s[j].0@);
                assert(pairs_map(s).contains_key(s[j].0@));
            }
            if pairs_map(s).insert(p.0@, p.1@).contains_key(k) {
                if k == p.0@ {
                    assert(pairs_map(u).contains_key(u[i].0@));
                } else {
                    let j = choose|j: int| 0 <= j < s.len() && s[j].0@ == k;
                    assert(u[j].0@ == s[j].0@);
                    assert(pairs_map(u).contains_key(u[j].0@));
                }
            }
        }
        assert forall|k: Seq<char>| #[trigger] pairs_map(u).contains_key(k) implies pairs_map(u)[k] == pairs_map(s).insert(p.0@, p.1@)[k] by {
            let j = choose|j: int| 0 <= j < u.len() && u[j].0@ == k;
            assert(pairs_map(u)[u[j].0@] == u[j].1@);
            if j != i {
                assert(u[j] == s[j]);
                assert(s[j].0@ != s[i].0@);
            }
        }
    }
}

proof fn lemma_pairs_map_push(s: Seq<(String, String)>, p: (String, String))
    requires
        distinct_keys(s),
        !pairs_map(s).contains_key(p.0@),
    ensures
        distinct_keys(s.push(p)),
        pairs_map(s.push(p)) == pairs_map(s).insert(p.0@, p.1@),
{
    lemma_pairs_map(s);
    let u = s.push(p);
    assert(u.subrange(0, u.len() - 1) =~= s);
    assert(distinct_keys(u)) by {
        assert forall|a: int, b: int| 0 <= a < u.len() && 0 <= b < u.len() && a != b implies #[trigger] u[a].0@ != #[trigger] u[b].0@ by {
            if a < s.len() && b < s.len() {
                assert(u[a] == s[a] && u[b] == s[b]);
            } else if a < s.len() {
                assert(u[a] == s[a]);
                assert(pairs_map(s).contains_key(s[a].0@));
            } else {
                assert(u[b] == s[b]);
                assert(pairs_map(s).contains_key(s[b].0@));
            }
        }
    }
}

/// Two sequences of pairs hold the same texts at each position.
pub open spec fn same_texts(a: Seq<(String, String)>, b: Seq<(String, String)>) -> bool {
    &&& a.len() == b.len()
    &&& forall|i: int| #![trigger a[i]] #![trigger b[i]] 0 <= i < a.len() ==> a[i].0@ == b[i].0@ && a[i].1@ == b[i].1@
}

proof fn lemma_same_texts(a: Seq<(String, String)>, b: Seq<(String, String)>)
    requires
        same_texts(a, b),
    ensures
        pairs_map(a) == pairs_map(b),
        distinct_keys(a) ==> distinct_keys(b),
    decreases a.len(),
{
    if a.len() > 0 {
        let n = a.len() - 1;
        assert(same_texts(a.subrange(0, n), b.subrange(0, n))) by {
            assert forall|i: int| 0 <= i < n implies #[trigger] a.subrange(0, n)[i].0@ == b.subrange(0, n)[i].0@
                && a.subrange(0, n)[i].1@ == b.subrange(0, n)[i].1@ by {
                assert(a.subrange(0, n)[i] == a[i]);
                assert(b.subrange(0, n)[i] == b[i]);
            }
        }
        lemma_same_texts(a.subrange(0, n), b.subrange(0, n));
        assert(a[n].0@ == b[n].0@ && a[n].1@ == b[n].1@);
    }
    if distinct_keys(a) {
        assert forall|i: int, j: int| 0 <= i < b.len() && 0 <= j < b.len() && i != j implies #[trigger] b[i].0@ != #[trigger] b[j].0@ by {
            assert(a[i].0@ == b[i].0@ && a[j].0@ == b[j].0@);
        }
    }
}

/// Secrets by key. No key occurs twice.
#[derive(Debug)]
pub struct SecretMap {
    pairs: Vec<(String, String)>,
}

impl View for SecretMap {
    type V = Map<Seq<char>, Seq<char>>;

    closed spec fn view(&self) -> Map<Seq<char>, Seq<char>> {
        pairs_map(self.pairs@)
    }
}

impl SecretMap {
    #[verifier::type_invariant]
    closed spec fn well_formed(self) -> bool {
        distinct_keys(self.pairs@)
    }

    /// No secrets.
    pub fn new() -> (r: SecretMap)
        ensures
            r@ == Map::<Seq<char>, Seq<char>>::empty(),
    {
        SecretMap { pairs: Vec::new() }
    }

    /// The number of secrets.
    pub fn len(&self) -> (r: usize)
        ensures
            self@.dom().finite(),
            r == self@.dom().len(),
    {
        proof {
            use_type_invariant(self);
            lemma_pairs_map(self.pairs@);
        }
        self.pairs.len()
    }

    /// Whether there are no secrets.
    pub fn is_empty(&self) -> (r: bool)
        ensures
            r == (self@.dom().len() == 0),
    {
        self.len() == 0
    }

    /// The secrets as key-value pairs, each key once.
    pub fn entries(&self) -> (r: Vec<(String, String)>)
        ensures
            pairs_map(r@) == self@,
            distinct_keys(r@),
    {
        proof {
            use_type_invariant(self);
        }
        let mut r: Vec<(String, String)> = Vec::new();
        let mut i: usize = 0;
        while i < self.pairs.len()
            invariant
                i <= self.pairs.len(),
                same_texts(r@, self.pairs@.subrange(0, i as int)),
            decreases self.pairs.len() - i,
        {
            let ghost before = r@;
            assert(same_texts(before, self.pairs@.subrange(0, i as int)));
            let key = self.pairs[i].0.clone();
            let value = self.pairs[i].1.clone();
            r.push((key, value));
            proof {
                let t = self.pairs@.subrange(0, i + 1);
                let u = self.pairs@.subrange(0, i as int);
                assert forall|j: int| 0 <= j < r@.len() implies #[trigger] r@[j].0@ == t[j].0@ && r@[j].1@ == t[j].1@ by {
                    if j < i {
                        assert(r@[j] == before[j]);
                        assert(same_texts(before, u));
                        assert(0 <= j < before.len());
                        assert(before[j].0@ == u[j].0@ && before[j].1@ == u[j].1@);
                        assert(t[j] == u[j]);
                    } else {
                        assert(t[j] == self.pairs@[i as int]);
                    }
                }
            }
            i = i + 1;
        }
        proof {
            assert(self.pairs@.subrange(0, i as int) =~= self.pairs@);
            assert(same_texts(self.pairs@, r@)) by {
                assert forall|j: int| 0 <= j < r@.len() implies #[trigger] self.pairs@[j].0@ == r@[j].0@ && self.pairs@[j].1@ == r@[j].1@ by {
                    assert(self.pairs@.subrange(0, i as int)[j] == self.pairs@[j]);
                }
            }
            lemma_same_texts(self.pairs@, r@);
        }
        r
    }

    fn position(&self, key: &str) -> (r: Option<usize>)
        ensures
            match r {
                Some(i) => i < self.pairs@.len() && self.pairs@[i as int].0@ == key@,
                None => forall|j: int| 0 <= j < self.pairs@.len() ==> #[trigger] self.pairs@[j].0@ != key@,
            },
    {
        let mut i: usize = 0;
        while i < self.pairs.len()
            invariant
                i <= self.pairs.len(),
                forall|j: int| 0 <= j < i ==> #[trigger] self.pairs@[j].0@ != key@,
            decreases self.pairs.len() - i,
        {
            if same_text(self.pairs[i].0.as_str(), key) {
                return Some(i);
            }
            i = i + 1;
        }
        None
    }

    /// The secret stored under `key`.
    pub fn get(&self, key: &str) -> (r: Option<&String>)
        ensures
            r is Some <==> self@.contains_key(key@),
            r matches Some(v) ==> v@ == self@[key@],
    {
        proof {
            use_type_invariant(self);
            lemma_pairs_map(self.pairs@);
        }
        match self.position(key) {
            Some(i) => {
                proof {
                    assert(pairs_map(self.pairs@).contains_key(self.pairs@[i as int].0@));
                }
                Some(&self.pairs[i].1)
            },
            None => {
                proof {
                    if self@.contains_key(key@) {
                        let j = choose|j: int| 0 <= j < self.pairs@.len() && self.pairs@[j].0@ == key@;
                        assert(self.pairs@[j].0@ != key@);
                    }
                }
                None
            },
        }
    }

    /// Stores `value` under `key`, replacing what was stored there.
    pub fn insert(&mut self, key: String, value: String)
        ensures
            final(self)@ == old(self)@.insert(key@, value@),
    {
        proof {
            use_type_invariant(&*self);
            lemma_pairs_map(self.pairs@);
        }
        match self.position(key.as_str()) {
            Some(i) => {
                let ghost s = self.pairs@;
                proof {
                    lemma_pairs_map_update(s, i as int, (key, value));
                }
                let mut pairs: Vec<(String, String)> = Vec::new();
                std::mem::swap(&mut pairs, &mut self.pairs);
                pairs.set(i, (key, value));
                self.pairs = pairs;
            },
            None => {
                let ghost s = self.pairs@;
                proof {
                    if pairs_map(s).contains_key(key@) {
                        let j = choose|j: int| 0 <= j < s.len() && s[j].0@ == key@;
                        assert(s[j].0@ != key@);
                    }
                    lemma_pairs_map_push(s, (key, value));
                }
                let mut pairs: Vec<(String, String)> = Vec::new();
                std::mem::swap(&mut pairs, &mut self.pairs);
                pairs.push((key, value));
                self.pairs = pairs;
            },
        }
    }
}

/// The secret a directory entry gives, if any: a regular file with a
/// Unicode name and readable content that is not blank gives the
/// lower-cased name and the trimmed content.
pub open spec fn secret_of(e: DirectoryEntry) -> Option<(Seq<char>, Seq<char>)> {
    match (e.file_name, e.content) {
        (Some(name), Some(content)) => if e.is_file && trim(content@).len() > 0 {
            Some((text_lowercase(name@), trim(content@)))
        } else {
            None
        },
        _ => None,
    }
}

/// The secrets of a sequence of entries, taken in order; a later entry
/// replaces an earlier one with the same key.
pub open spec fn secrets_of(es: Seq<DirectoryEntry>) -> Map<Seq<char>, Seq<char>>
    decreases es.len(),
{
    if es.len() == 0 {
        Map::empty()
    } else {
        let before = secrets_of(es.subrange(0, es.len() - 1));
        match secret_of(es[es.len() - 1]) {
            Some((k, v)) => before.insert(k, v),
            None => before,
        }
    }
}

/// Entry `i` gives a secret with key `k`.
pub open spec fn gives_key(es: Seq<DirectoryEntry>, i: int, k: Seq<char>) -> bool {
    secret_of(es[i]) matches Some(p) && p.0 == k
}

/// Entry `i` gives the secret `k` with value `v`, and no later entry gives `k`.
pub open spec fn last_giver(es: Seq<DirectoryEntry>, i: int, k: Seq<char>, v: Seq<char>) -> bool {
    &&& 0 <= i < es.len()
    &&& secret_of(es[i]) == Some((k, v))
    &&& forall|j: int| i < j < es.len() ==> !#[trigger] gives_key(es, j, k)
}

/// Every secret value is its file's content without leading or trailing
/// white space: it is not empty, and it starts and ends with a character
/// that is not white space.
pub proof fn lemma_secret_values_trimmed(es: Seq<DirectoryEntry>)
    ensures
        forall|k: Seq<char>| #[trigger] secrets_of(es).contains_key(k) ==> {
            let v = secrets_of(es)[k];
            &&& v.len() > 0
            &&& !is_white_space(v[0])
            &&& !is_white_space(v.last())
        },
{
    lemma_secrets_from_files(es);
    assert forall|k: Seq<char>| #[trigger] secrets_of(es).contains_key(k) implies {
        let v = secrets_of(es)[k];
        &&& v.len() > 0
        &&& !is_white_space(v[0])
        &&& !is_white_space(v.last())
    } by {
        let i = choose|i: int| #[trigger] last_giver(es, i, k, secrets_of(es)[k]);
        let content = es[i].content->0;
        lemma_trimmed_edges(content@);
    }
}

/// Every secret comes from a readable, non-blank regular file: the last
/// file whose lower-cased name is the key gives the value, its trimmed
/// content, which is never empty; and every such file gives a secret.
pub proof fn lemma_secrets_from_files(es: Seq<DirectoryEntry>)
    ensures
        forall|k: Seq<char>| #[trigger] secrets_of(es).contains_key(k) ==> exists|i: int|
            #[trigger] last_giver(es, i, k, secrets_of(es)[k]),
        forall|k: Seq<char>| #[trigger] secrets_of(es).contains_key(k) ==> secrets_of(es)[k].len() > 0,
        forall|i: int| 0 <= i < es.len() && (#[trigger] secret_of(es[i])) is Some
            ==> secrets_of(es).contains_key((secret_of(es[i])->0).0),
    decreases es.len(),
{
    if es.len() > 0 {
        let n = es.len() - 1;
        let init = es.subrange(0, n);
        lemma_secrets_from_files(init);
        let m = secrets_of(init);
        let cur = secrets_of(es);
        assert forall|i: int| 0 <= i < n implies es[i] == init[i] by {}
        assert forall|k: Seq<char>| #[trigger] cur.contains_key(k) implies exists|i: int|
            #[trigger] last_giver(es, i, k, cur[k]) by {
            if secret_of(es[n]) matches Some(p) && p.0 == k {
                assert(last_giver(es, n, k, cur[k]));
            } else {
                assert(m.contains_key(k) && cur[k] == m[k]);
                let i = choose|i: int| #[trigger] last_giver(init, i, k, m[k]);
                assert forall|j: int| i < j < es.len() implies !#[trigger] gives_key(es, j, k) by {
                    if j < n {
                        assert(gives_key(init, j, k) == gives_key(es, j, k));
                    }
                }
                assert(last_giver(es, i, k, cur[k]));
            }
        }
        assert forall|k: Seq<char>| #[trigger] cur.contains_key(k) implies cur[k].len() > 0 by {
            let i = choose|i: int| #[trigger] last_giver(es, i, k, cur[k]);
        }
        assert forall|i: int| 0 <= i < es.len() && (#[trigger] secret_of(es[i])) is Some
            implies cur.contains_key((secret_of(es[i])->0).0) by {
            if i < n {
                assert(secret_of(init[i]) is Some);
            }
        }
    }
}

fn entry_secret(e: &DirectoryEntry) -> (r: Option<(String, String)>)
    ensures
        match r {
            Some(p) => secret_of(*e) == Some((p.0@, p.1@)),
            None => secret_of(*e) is None,
        },
{
    if !e.is_file {
        return None;
    }
    match (&e.file_name, &e.content) {
        (Some(name), Some(content)) => {
            let trimmed = trim_text(content.as_str());
            if trimmed.unicode_len() == 0 {
                None
            } else {
                Some((lowercase(name.as_str()), String::from_str(trimmed)))
            }
        },
        _ => None,
    }
}

/// What secrets a directory gives, said of its entries alone: every regular
/// file with a Unicode name, readable content and content that is not blank
/// gives a secret under its lower-cased name; the value under a key is the
/// trimmed content of the last such file with that key; and every secret
/// comes from such a file, with a non-empty value.
pub proof fn lemma_secret_files(es: Seq<DirectoryEntry>)
    ensures
        forall|i: int|
            0 <= i < es.len() && (#[trigger] es[i]).is_file && es[i].file_name is Some && es[i].content is Some
                && trim(es[i].content->0@).len() > 0
                ==> secrets_of(es).contains_key(text_lowercase(es[i].file_name->0@)),
        forall|i: int|
            0 <= i < es.len() && (#[trigger] es[i]).is_file && es[i].file_name is Some && es[i].content is Some
                && trim(es[i].content->0@).len() > 0
                && (forall|j: int|
                    i < j < es.len() && (#[trigger] es[j]).is_file && es[j].file_name is Some && es[j].content is Some
                        && trim(es[j].content->0@).len() > 0
                        ==> text_lowercase(es[j].file_name->0@) != text_lowercase(es[i].file_name->0@))
                ==> secrets_of(es)[text_lowercase(es[i].file_name->0@)] == trim(es[i].content->0@),
        forall|k: Seq<char>| #[trigger] secrets_of(es).contains_key(k) ==> exists|i: int|
            0 <= i < es.len() && (#[trigger] es[i]).is_file && es[i].file_name is Some && es[i].content is Some
                && text_lowercase(es[i].file_name->0@) == k && secrets_of(es)[k] == trim(es[i].content->0@)
                && secrets_of(es)[k].len() > 0,
{
    lemma_secrets_from_files(es);
    assert forall|i: int|
        0 <= i < es.len() && (#[trigger] es[i]).is_file && es[i].file_name is Some && es[i].content is Some
            && trim(es[i].content->0@).len() > 0
            implies secrets_of(es).contains_key(text_lowercase(es[i].file_name->0@)) by {
        assert(secret_of(es[i]) is Some);
    }
    assert forall|i: int|
        0 <= i < es.len() && (#[trigger] es[i]).is_file && es[i].file_name is Some && es[i].content is Some
            && trim(es[i].content->0@).len() > 0
            && (forall|j: int|
                i < j < es.len() && (#[trigger] es[j]).is_file && es[j].file_name is Some && es[j].content is Some
                    && trim(es[j].content->0@).len() > 0
                    ==> text_lowercase(es[j].file_name->0@) != text_lowercase(es[i].file_name->0@))
            implies secrets_of(es)[text_lowercase(es[i].file_name->0@)] == trim(es[i].content->0@) by {
        let k = text_lowercase(es[i].file_name->0@);
        assert(secret_of(es[i]) is Some);
        assert(secrets_of(es).contains_key(k));
        let w = choose|w: int| #[trigger] last_giver(es, w, k, secrets_of(es)[k]);
        if w < i {
            assert(gives_key(es, i, k));
        } else if w > i {
            assert(secret_of(es[w]) == Some((k, secrets_of(es)[k])));
        }
    }
    assert forall|k: Seq<char>| #[trigger] secrets_of(es).contains_key(k) implies exists|i: int|
        0 <= i < es.len() && (#[trigger] es[i]).is_file && es[i].file_name is Some && es[i].content is Some
            && text_lowercase(es[i].file_name->0@) == k && secrets_of(es)[k] == trim(es[i].content->0@)
            && secrets_of(es)[k].len() > 0 by {
        let w = choose|w: int| #[trigger] last_giver(es, w, k, secrets_of(es)[k]);
        assert(es[w].is_file);
    }
}

/// Reads the secrets of a directory: each regular file whose name is valid
/// Unicode and whose content could be read becomes a secret keyed by its
/// lower-cased name, with its trimmed content as value; blank files are
/// skipped, and a later file replaces an earlier one with the same key.
pub fn load_secrets_from_dir(dir: &DirectorySnapshot) -> (r: SecretMap)
    ensures
        r@ == secrets_of(dir.entries@),
        forall|i: int|
            0 <= i < dir.entries@.len() && (#[trigger] dir.entries@[i]).is_file && dir.entries@[i].file_name is Some
                && dir.entries@[i].content is Some && trim(dir.entries@[i].content->0@).len() > 0
                ==> r@.contains_key(text_lowercase(dir.entries@[i].file_name->0@)),
        forall|k: Seq<char>| #[trigger] r@.contains_key(k) ==> exists|i: int|
            0 <= i < dir.entries@.len() && (#[trigger] dir.entries@[i]).is_file && dir.entries@[i].file_name is Some
                && dir.entries@[i].content is Some && text_lowercase(dir.entries@[i].file_name->0@) == k
                && r@[k] == trim(dir.entries@[i].content->0@) && r@[k].len() > 0,
{
    proof {
        lemma_secret_files(dir.entries@);
    }
    let mut secrets = SecretMap::new();
    let mut i: usize = 0;
    while i < dir.entries.len()
        invariant
            i <= dir.entries.len(),
            secrets@ == secrets_of(dir.entries@.subrange(0, i as int)),
        decreases dir.entries.len() - i,
    {
        proof {
            assert(dir.entries@.subrange(0, i + 1).subrange(0, i as int) =~= dir.entries@.subrange(0, i as int));
        }
        match entry_secret(&dir.entries[i]) {
            Some((k, v)) => secrets.insert(k, v),
            None => {},
        }
        i = i + 1;
    }
    proof {
        assert(dir.entries@.subrange(0, dir.entries.len() as int) =~= dir.entries@);
    }
    secrets
}

} // verus!
