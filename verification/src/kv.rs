//! The annotation map: static string keys to values, keys unique, with a
//! deterministic, insertion-order-independent rendering. The entries are held
//! sorted by key, so the rendered forms follow key-lexicographic order
//! whatever order the entries arrived in.

use vstd::prelude::*;

use crate::json::{json_quote, json_str_lit};
use crate::text::{lemma_lex_connected, lemma_lex_irrefl, lemma_lex_trans, lex_lt, str_eq, str_lt};
use crate::value::{BasicType, ValueModel, value_json, value_text};

verus! {

/// Whether the keys of an entry sequence are strictly ascending.
pub open spec fn sorted_keys(s: Seq<(Seq<char>, ValueModel)>) -> bool {
    forall|i: int, j: int|
        #![trigger s[i], s[j]]
        0 <= i < j < s.len() ==> lex_lt(s[i].0, s[j].0)
}

/// Whether some entry of `s` carries the key `k`.
pub open spec fn has_key(s: Seq<(Seq<char>, ValueModel)>, k: Seq<char>) -> bool {
    exists|i: int| 0 <= i < s.len() && #[trigger] s[i].0 == k
}

/// The mapping that an entry sequence holds; later entries win, though with
/// unique keys no entry shadows another.
pub open spec fn kvs_map(s: Seq<(Seq<char>, ValueModel)>) -> Map<Seq<char>, ValueModel>
    decreases s.len(),
{
    if s.len() == 0 {
        Map::empty()
    } else {
        kvs_map(s.drop_first()).insert(s[0].0, s[0].1)
    }
}

/// A key stands in the mapping exactly when some entry carries it.
pub proof fn lemma_kvs_map_dom(s: Seq<(Seq<char>, ValueModel)>, k: Seq<char>)
    ensures
        kvs_map(s).contains_key(k) <==> has_key(s, k),
    decreases s.len(),
{
    if s.len() == 0 {
    } else {
        lemma_kvs_map_dom(s.drop_first(), k);
        if k == s[0].0 {
            assert(s[0].0 == k);
        } else if has_key(s.drop_first(), k) {
            let i = choose|i: int| 0 <= i < s.drop_first().len() && s.drop_first()[i].0 == k;
            assert(s[i + 1].0 == k);
        } else if has_key(s, k) {
            let i = choose|i: int| 0 <= i < s.len() && s[i].0 == k;
            assert(i > 0);
            assert(s.drop_first()[i - 1].0 == k);
        }
    }
}

/// With strictly ascending keys, each entry's key maps to that entry's value.
pub proof fn lemma_kvs_map_at(s: Seq<(Seq<char>, ValueModel)>, i: int)
    requires
        sorted_keys(s),
        0 <= i < s.len(),
    ensures
        kvs_map(s).contains_key(s[i].0),
        kvs_map(s)[s[i].0] == s[i].1,
    decreases s.len(),
{
    lemma_kvs_map_dom(s, s[i].0);
    if i == 0 {
        if kvs_map(s.drop_first()).contains_key(s[0].0) {
        }
    } else {
        assert(sorted_keys(s.drop_first())) by {
            assert forall|p: int, q: int|
                0 <= p < q < s.drop_first().len() implies lex_lt(
                #[trigger] s.drop_first()[p].0,
                #[trigger] s.drop_first()[q].0,
            ) by {
                assert(s.drop_first()[p] == s[p + 1]);
                assert(s.drop_first()[q] == s[q + 1]);
            }
        }
        assert(s.drop_first()[i - 1] == s[i]);
        lemma_kvs_map_at(s.drop_first(), i - 1);
        assert(lex_lt(s[0].0, s[i].0));
        lemma_lex_irrefl(s[0].0);
        assert(s[i].0 != s[0].0);
    }
}

/// Keys strictly ascending stay strictly ascending on the tail.
pub proof fn lemma_sorted_drop_first(s: Seq<(Seq<char>, ValueModel)>)
    requires
        sorted_keys(s),
        s.len() > 0,
    ensures
        sorted_keys(s.drop_first()),
{
    assert forall|p: int, q: int|
        0 <= p < q < s.drop_first().len() implies lex_lt(
        #[trigger] s.drop_first()[p].0,
        #[trigger] s.drop_first()[q].0,
    ) by {
        assert(s.drop_first()[p] == s[p + 1]);
        assert(s.drop_first()[q] == s[q + 1]);
    }
}

/// Inserting an entry whose key is fresh extends the mapping pointwise.
pub proof fn lemma_kvs_map_insert(
    s: Seq<(Seq<char>, ValueModel)>,
    p: int,
    k: Seq<char>,
    v: ValueModel,
)
    requires
        0 <= p <= s.len(),
        !has_key(s, k),
    ensures
        kvs_map(s.insert(p, (k, v))) == kvs_map(s).insert(k, v),
    decreases p,
{
    let t = s.insert(p, (k, v));
    if p == 0 {
        assert(t.drop_first() =~= s);
        assert(t[0] == (k, v));
        assert(kvs_map(t) == kvs_map(s).insert(k, v));
    } else {
        assert(t[0] == s[0]);
        assert(t.drop_first() =~= s.drop_first().insert(p - 1, (k, v)));
        assert(!has_key(s.drop_first(), k)) by {
            if has_key(s.drop_first(), k) {
                let i = choose|i: int|
                    0 <= i < s.drop_first().len() && s.drop_first()[i].0 == k;
                assert(s[i + 1].0 == k);
            }
        }
        lemma_kvs_map_insert(s.drop_first(), p - 1, k, v);
        assert(s[0].0 != k) by {
            assert(s[0].0 == s[0].0);
        }
        assert(kvs_map(t) == kvs_map(s.drop_first()).insert(k, v).insert(s[0].0, s[0].1));
        assert(kvs_map(s.drop_first()).insert(k, v).insert(s[0].0, s[0].1) =~= kvs_map(
            s.drop_first(),
        ).insert(s[0].0, s[0].1).insert(k, v));
    }
}

/// Two entry sequences with strictly ascending keys that hold the same
/// mapping are the same sequence.
pub proof fn lemma_sorted_entries_unique(
    s1: Seq<(Seq<char>, ValueModel)>,
    s2: Seq<(Seq<char>, ValueModel)>,
)
    requires
        sorted_keys(s1),
        sorted_keys(s2),
        kvs_map(s1) == kvs_map(s2),
    ensures
        s1 == s2,
    decreases s1.len(),
{
    if s1.len() == 0 {
        if s2.len() > 0 {
            lemma_kvs_map_dom(s1, s2[0].0);
            lemma_kvs_map_dom(s2, s2[0].0);
            assert(s2[0].0 == s2[0].0);
        }
        assert(s1 =~= s2);
    } else if s2.len() == 0 {
        lemma_kvs_map_dom(s1, s1[0].0);
        lemma_kvs_map_dom(s2, s1[0].0);
        assert(s1[0].0 == s1[0].0);
    } else {
        let k1 = s1[0].0;
        let k2 = s2[0].0;
        // The head key of each sequence appears in the other; being the
        // least key of its own sequence, the two heads must agree.
        assert(s1[0].0 == k1);
        assert(s2[0].0 == k2);
        lemma_kvs_map_dom(s1, k1);
        lemma_kvs_map_dom(s2, k1);
        lemma_kvs_map_dom(s1, k2);
        lemma_kvs_map_dom(s2, k2);
        let j = choose|j: int| 0 <= j < s2.len() && s2[j].0 == k1;
        let m = choose|m: int| 0 <= m < s1.len() && s1[m].0 == k2;
        if j > 0 && m > 0 {
            assert(lex_lt(k2, s2[j].0));
            assert(lex_lt(k1, s1[m].0));
            lemma_lex_trans(k1, k2, k1);
            lemma_lex_irrefl(k1);
            assert(false);
        }
        assert(k1 == k2);
        lemma_kvs_map_at(s1, 0);
        lemma_kvs_map_at(s2, 0);
        assert(s1[0].1 == s2[0].1);
        // The tails hold the same mapping: the head key is fresh in each
        // tail, so removing it from the mapping uncovers the tail's mapping.
        lemma_sorted_drop_first(s1);
        lemma_sorted_drop_first(s2);
        assert(!has_key(s1.drop_first(), k1)) by {
            if has_key(s1.drop_first(), k1) {
                let i = choose|i: int|
                    0 <= i < s1.drop_first().len() && s1.drop_first()[i].0 == k1;
                assert(s1[i + 1].0 == k1);
                assert(lex_lt(s1[0].0, s1[i + 1].0));
                lemma_lex_irrefl(k1);
            }
        }
        assert(!has_key(s2.drop_first(), k1)) by {
            if has_key(s2.drop_first(), k1) {
                let i = choose|i: int|
                    0 <= i < s2.drop_first().len() && s2.drop_first()[i].0 == k1;
                assert(s2[i + 1].0 == k1);
                assert(lex_lt(s2[0].0, s2[i + 1].0));
                lemma_lex_irrefl(k1);
            }
        }
        lemma_kvs_map_dom(s1.drop_first(), k1);
        lemma_kvs_map_dom(s2.drop_first(), k1);
        assert(kvs_map(s1.drop_first()) =~= kvs_map(s1).remove(k1));
        assert(kvs_map(s2.drop_first()) =~= kvs_map(s2).remove(k1));
        lemma_sorted_entries_unique(s1.drop_first(), s2.drop_first());
        assert(s1 =~= s2) by {
            assert(s1[0] == s2[0]);
            assert forall|i: int| 0 < i < s1.len() implies s1[i] == s2[i] by {
                assert(s1.drop_first()[i - 1] == s2.drop_first()[i - 1]);
            }
        }
    }
}

/// The canonical text of the entries themselves: `key: value`, joined by
/// commas, in storage order.
pub open spec fn fields_text(s: Seq<(Seq<char>, ValueModel)>) -> Seq<char>
    decreases s.len(),
{
    if s.len() == 0 {
        Seq::empty()
    } else if s.len() == 1 {
        s[0].0 + seq![':', ' '] + value_text(s[0].1)
    } else {
        fields_text(s.drop_last()) + seq![',', ' '] + s.last().0 + seq![':', ' '] + value_text(
            s.last().1,
        )
    }
}

/// The canonical text of an annotation map with the given entries.
pub open spec fn kv_text(s: Seq<(Seq<char>, ValueModel)>) -> Seq<char> {
    if s.len() == 0 {
        "ErrorInfo"@
    } else {
        "ErrorInfo { "@ + fields_text(s) + " }"@
    }
}

/// The JSON fields of the entries: `"key":value`, joined by commas, in
/// storage order.
pub open spec fn fields_json(s: Seq<(Seq<char>, ValueModel)>) -> Seq<char>
    decreases s.len(),
{
    if s.len() == 0 {
        Seq::empty()
    } else if s.len() == 1 {
        json_str_lit(s[0].0) + seq![':'] + value_json(s[0].1)
    } else {
        fields_json(s.drop_last()) + seq![','] + json_str_lit(s.last().0) + seq![':'] + value_json(
            s.last().1,
        )
    }
}

/// The JSON object of an annotation map with the given entries.
pub open spec fn kv_json(s: Seq<(Seq<char>, ValueModel)>) -> Seq<char> {
    seq!['{'] + fields_json(s) + seq!['}']
}

/// The JSON fields of the entries, pretty form: each field on its own line
/// at the given indent, `"key": value`.
pub open spec fn fields_json_pretty(s: Seq<(Seq<char>, ValueModel)>, ind: Seq<char>) -> Seq<char>
    decreases s.len(),
{
    if s.len() == 0 {
        Seq::empty()
    } else if s.len() == 1 {
        ind + json_str_lit(s[0].0) + ": "@ + value_json(s[0].1)
    } else {
        fields_json_pretty(s.drop_last(), ind) + seq![',', '\n'] + ind + json_str_lit(s.last().0)
            + ": "@ + value_json(s.last().1)
    }
}

/// The JSON object of an annotation map, pretty form: the fields each on
/// their own line, indented one step past the given indent.
pub open spec fn kv_json_pretty(s: Seq<(Seq<char>, ValueModel)>, ind: Seq<char>) -> Seq<char> {
    if s.len() == 0 {
        "{}"@
    } else {
        seq!['{', '\n'] + fields_json_pretty(s, ind + seq![' ', ' ']) + seq!['\n'] + ind
            + seq!['}']
    }
}

/// The annotation map itself.
pub struct KeyValue {
    entries: Vec<(&'static str, BasicType)>,
}

impl Clone for KeyValue {
    /// An independent copy holding the same entries: mutating either map
    /// afterwards leaves the other untouched.
    fn clone(&self) -> (r: KeyValue)
        ensures
            r.entries_model() == self.entries_model(),
    {
        let n = self.entries.len();
        let mut entries: Vec<(&'static str, BasicType)> = Vec::new();
        let mut i: usize = 0;
        while i < n
            invariant
                i <= n,
                n == self.entries@.len(),
                entries@.len() == i,
                forall|j: int| 0 <= j < i ==> #[trigger] entries@[j] == self.entries@[j],
            decreases n - i,
        {
            let key = self.entries[i].0;
            let value = self.entries[i].1.clone();
            entries.push((key, value));
            i = i + 1;
        }
        let r = KeyValue { entries };
        proof {
            assert(r.entries_model() =~= self.entries_model());
        }
        r
    }
}

impl View for KeyValue {
    type V = Map<Seq<char>, ValueModel>;

    open spec fn view(&self) -> Map<Seq<char>, ValueModel> {
        kvs_map(self.entries_model())
    }
}

impl KeyValue {
    /// The entries as they stand, keys with value models, in storage order.
    pub closed spec fn entries_model(self) -> Seq<(Seq<char>, ValueModel)> {
        self.entries@.map(|i: int, p: (&'static str, BasicType)| (p.0@, p.1@))
    }

    /// Well-formed: the stored keys are strictly ascending.
    pub open spec fn wf(self) -> bool {
        sorted_keys(self.entries_model())
    }

    /// The number of entries.
    pub closed spec fn spec_len(self) -> nat {
        self.entries@.len()
    }

    /// A fresh, empty annotation map.
    pub fn new() -> (r: KeyValue)
        ensures
            r.wf(),
            r@ == Map::<Seq<char>, ValueModel>::empty(),
            r.spec_len() == 0,
            r.entries_model() == Seq::<(Seq<char>, ValueModel)>::empty(),
    {
        let r = KeyValue { entries: Vec::new() };
        proof {
            assert(r.entries_model() =~= Seq::<(Seq<char>, ValueModel)>::empty());
        }
        r
    }

    /// Whether a value already sits under the given key.
    pub fn contains_key(&self, key: &str) -> (r: bool)
        ensures
            r == self@.contains_key(key@),
    {
        let n = self.entries.len();
        let mut i: usize = 0;
        while i < n
            invariant
                i <= n,
                n == self.entries@.len(),
                forall|j: int| 0 <= j < i ==> #[trigger] self.entries_model()[j].0 != key@,
            decreases n - i,
        {
            if str_eq(self.entries[i].0, key) {
                proof {
                    lemma_kvs_map_dom(self.entries_model(), key@);
                    assert(self.entries_model()[i as int].0 == key@);
                    assert(has_key(self.entries_model(), key@));
                }
                return true;
            }
            assert(self.entries_model()[i as int].0 == self.entries@[i as int].0@);
            i = i + 1;
        }
        proof {
            lemma_kvs_map_dom(self.entries_model(), key@);
            if has_key(self.entries_model(), key@) {
                let j = choose|j: int|
                    0 <= j < self.entries_model().len() && self.entries_model()[j].0 == key@;
                assert(self.entries_model()[j].0 != key@);
            }
        }
        false
    }

    /// The current entry count.
    pub fn len(&self) -> (r: usize)
        ensures
            r == self.spec_len(),
            self.spec_len() == self.entries_model().len(),
    {
        self.entries.len()
    }

    fn find_pos(&self, key: &'static str) -> (pos: usize)
        requires
            self.wf(),
        ensures
            pos <= self.entries_model().len(),
            forall|i: int|
                0 <= i < pos ==> lex_lt(#[trigger] self.entries_model()[i].0, key@),
            pos < self.entries_model().len() ==> !lex_lt(self.entries_model()[pos as int].0, key@),
    {
        let n = self.entries.len();
        let mut pos: usize = 0;
        while pos < n
            invariant
                pos <= n,
                n == self.entries_model().len(),
                self.wf(),
                forall|i: int|
                    0 <= i < pos ==> lex_lt(#[trigger] self.entries_model()[i].0, key@),
            decreases n - pos,
        {
            if !str_lt(self.entries[pos].0, key) {
                assert(self.entries_model()[pos as int].0 == self.entries[pos as int].0@);
                return pos;
            }
            assert(self.entries_model()[pos as int].0 == self.entries[pos as int].0@);
            pos = pos + 1;
        }
        pos
    }

    /// Places a value under a fresh key. A key may be used only once per
    /// map: a repeated key is a call-site bug, ruled out by the
    /// precondition, not a runtime condition to recover from.
    pub fn insert_value(&mut self, key: &'static str, value: BasicType)
        requires
            old(self).wf(),
            !old(self)@.contains_key(key@),
        ensures
            final(self).wf(),
            final(self)@ == old(self)@.insert(key@, value@),
            final(self).spec_len() == old(self).spec_len() + 1,
            final(self).entries_model().len() == old(self).entries_model().len() + 1,
            final(self)@.contains_key(key@),
    {
        proof {
            lemma_kvs_map_dom(old(self).entries_model(), key@);
        }
        let pos = self.find_pos(key);
        let ghost s = self.entries_model();
        let ghost p = pos as int;
        self.entries.insert(pos, (key, value));
        proof {
            let t = self.entries_model();
            assert(t =~= s.insert(p, (key@, value@))) by {
                assert forall|i: int| 0 <= i < t.len() implies t[i] == s.insert(
                    p,
                    (key@, value@),
                )[i] by {
                    if i < p {
                        assert(self.entries@[i] == old(self).entries@[i]);
                    } else if i == p {
                        assert(self.entries@[i] == (key, value));
                    } else {
                        assert(self.entries@[i] == old(self).entries@[i - 1]);
                    }
                }
            }
            // The new key is strictly between its neighbours, so the keys
            // stay strictly ascending.
            assert forall|i: int, j: int|
                0 <= i < j < t.len() implies lex_lt(#[trigger] t[i].0, #[trigger] t[j].0) by {
                if j < p {
                    assert(t[i] == s[i] && t[j] == s[j]);
                } else if i < p && j == p {
                    assert(t[i] == s[i]);
                    assert(lex_lt(s[i].0, key@));
                } else if i < p && j > p {
                    assert(t[i] == s[i] && t[j] == s[j - 1]);
                } else if i == p && j > p {
                    assert(t[j] == s[j - 1]);
                    // key@ differs from every stored key and does not come
                    // after the entry at the found position.
                    assert(s[j - 1].0 != key@) by {
                        if s[j - 1].0 == key@ {
                            assert(has_key(s, key@));
                        }
                    }
                    assert(s[p].0 != key@) by {
                        if s[p].0 == key@ {
                            assert(has_key(s, key@));
                        }
                    }
                    if !lex_lt(key@, s[p].0) {
                        lemma_lex_connected(s[p].0, key@);
                    }
                    assert(lex_lt(key@, s[p].0));
                    if j - 1 > p {
                        assert(lex_lt(s[p].0, s[j - 1].0));
                        lemma_lex_trans(key@, s[p].0, s[j - 1].0);
                    }
                } else {
                    assert(t[i] == s[i - 1] && t[j] == s[j - 1]);
                }
            }
            lemma_kvs_map_insert(s, p, key@, value@);
        }
    }

    /// Renders the entries in their canonical text form, in key order.
    pub fn render_text(&self) -> (r: String)
        ensures
            r@ == kv_text(self.entries_model()),
    {
        let ghost m = self.entries_model();
        let n = self.entries.len();
        if n == 0 {
            let r = String::from_str("ErrorInfo");
            proof {
                reveal_strlit("ErrorInfo");
            }
            return r;
        }
        let mut r = String::from_str("ErrorInfo { ");
        proof {
            reveal_strlit("ErrorInfo { ");
        }
        r.append(self.entries[0].0);
        r.append(": ");
        let v0 = self.entries[0].1.render_text();
        r.append(v0.as_str());
        proof {
            reveal_strlit(": ");
            assert(": "@ =~= seq![':', ' ']);
            assert(m[0] == (self.entries@[0].0@, self.entries@[0].1@));
            assert(m.take(1).len() == 1);
            assert(m.take(1)[0] == m[0]);
            assert(r@ =~= "ErrorInfo { "@ + fields_text(m.take(1)));
        }
        let mut i: usize = 1;
        while i < n
            invariant
                1 <= i <= n,
                n == m.len(),
                m == self.entries_model(),
                n == self.entries@.len(),
                r@ == "ErrorInfo { "@ + fields_text(m.take(i as int)),
            decreases n - i,
        {
            r.append(", ");
            r.append(self.entries[i].0);
            r.append(": ");
            let v = self.entries[i].1.render_text();
            r.append(v.as_str());
            proof {
                reveal_strlit(", ");
                reveal_strlit(": ");
                assert(", "@ =~= seq![',', ' ']);
                assert(": "@ =~= seq![':', ' ']);
                assert(m[i as int] == (self.entries@[i as int].0@, self.entries@[i as int].1@));
                assert(m.take(i + 1).drop_last() =~= m.take(i as int));
                assert(m.take(i + 1).last() == m[i as int]);
                assert(m.take(i + 1).len() == i + 1 >= 2);
                assert(r@ =~= "ErrorInfo { "@ + fields_text(m.take(i + 1)));
            }
            i = i + 1;
        }
        r.append(" }");
        proof {
            reveal_strlit(" }");
            assert(m.take(n as int) =~= m);
            assert(r@ =~= kv_text(m));
        }
        r
    }

    /// Renders the entries as a JSON object, one field per entry, in key
    /// order.
    pub fn render_json(&self) -> (r: String)
        ensures
            r@ == kv_json(self.entries_model()),
    {
        let ghost m = self.entries_model();
        let n = self.entries.len();
        let mut r = String::from_str("{");
        proof {
            reveal_strlit("{");
            assert("{"@ =~= seq!['{']);
        }
        let mut i: usize = 0;
        while i < n
            invariant
                i <= n,
                n == m.len(),
                m == self.entries_model(),
                n == self.entries@.len(),
                r@ == seq!['{'] + fields_json(m.take(i as int)),
            decreases n - i,
        {
            if i > 0 {
                r.append(",");
                proof {
                    reveal_strlit(",");
                    assert(","@ =~= seq![',']);
                }
            }
            let k = json_quote(self.entries[i].0);
            r.append(k.as_str());
            r.append(":");
            let v = self.entries[i].1.render_json();
            r.append(v.as_str());
            proof {
                reveal_strlit(":");
                assert(":"@ =~= seq![':']);
                assert(m[i as int] == (self.entries@[i as int].0@, self.entries@[i as int].1@));
                assert(m.take(i + 1).drop_last() =~= m.take(i as int));
                assert(m.take(i + 1).last() == m[i as int]);
                assert(r@ =~= seq!['{'] + fields_json(m.take(i + 1)));
            }
            i = i + 1;
        }
        r.append("}");
        proof {
            reveal_strlit("}");
            assert("}"@ =~= seq!['}']);
            assert(m.take(n as int) =~= m);
            assert(r@ =~= kv_json(m));
        }
        r
    }

    /// Renders the entries as a pretty-printed JSON object at the given
    /// indent, one field per line, in key order.
    pub fn render_json_pretty(&self, ind: &str) -> (r: String)
        ensures
            r@ == kv_json_pretty(self.entries_model(), ind@),
    {
        let ghost m = self.entries_model();
        let n = self.entries.len();
        if n == 0 {
            let r = String::from_str("{}");
            proof {
                reveal_strlit("{}");
            }
            return r;
        }
        let mut pad = String::from_str(ind);
        pad.append("  ");
        proof {
            reveal_strlit("  ");
            assert(pad@ =~= ind@ + seq![' ', ' ']);
        }
        let mut r = String::from_str("{\n");
        proof {
            reveal_strlit("{\n");
            assert(r@ =~= seq!['{', '\n']);
        }
        let mut i: usize = 0;
        while i < n
            invariant
                i <= n,
                n == m.len(),
                m == self.entries_model(),
                n == self.entries@.len(),
                pad@ == ind@ + seq![' ', ' '],
                r@ == seq!['{', '\n'] + fields_json_pretty(m.take(i as int), pad@),
            decreases n - i,
        {
            if i > 0 {
                r.append(",\n");
                proof {
                    reveal_strlit(",\n");
                    assert(",\n"@ =~= seq![',', '\n']);
                }
            }
            r.append(pad.as_str());
            let k = json_quote(self.entries[i].0);
            r.append(k.as_str());
            r.append(": ");
            let v = self.entries[i].1.render_json();
            r.append(v.as_str());
            proof {
                reveal_strlit(": ");
                assert(m[i as int] == (self.entries@[i as int].0@, self.entries@[i as int].1@));
                assert(m.take(i + 1).drop_last() =~= m.take(i as int));
                assert(m.take(i + 1).last() == m[i as int]);
                assert(r@ =~= seq!['{', '\n'] + fields_json_pretty(m.take(i + 1), pad@));
            }
            i = i + 1;
        }
        r.append("\n");
        r.append(ind);
        r.append("}");
        proof {
            reveal_strlit("\n");
            reveal_strlit("}");
            assert("\n"@ =~= seq!['\n']);
            assert("}"@ =~= seq!['}']);
            assert(m.take(n as int) =~= m);
            assert(r@ =~= kv_json_pretty(m, ind@));
        }
        r
    }

    /// Places any accepted candidate under a fresh key: the candidate is
    /// first converted to its value arm, then stored.
    pub fn insert<A>(&mut self, key: &'static str, arg: A) where BasicType: From<A>
        requires
            old(self).wf(),
            !old(self)@.contains_key(key@),
        ensures
            final(self).wf(),
            final(self).spec_len() == old(self).spec_len() + 1,
            final(self).entries_model().len() == old(self).entries_model().len() + 1,
            final(self)@.contains_key(key@),
            final(self)@.remove(key@) == old(self)@,
            <BasicType as vstd::std_specs::convert::FromSpec<A>>::obeys_from_spec() ==> final(self)@ == old(self)@.insert(
                key@,
                <BasicType as vstd::std_specs::convert::FromSpec<A>>::from_spec(arg)@,
            ),
    {
        let value = BasicType::from(arg);
        self.insert_value(key, value);
        proof {
            assert(self@.remove(key@) =~= old(self)@);
        }
    }
}

/// Rendering is insertion-order independent: two well-formed annotation maps
/// that hold the same key/value pairs — in whatever order the pairs were
/// inserted — render byte-identically, as text and as JSON.
pub proof fn lemma_render_order_independent(a: KeyValue, b: KeyValue)
    requires
        a.wf(),
        b.wf(),
        a@ == b@,
    ensures
        a.entries_model() == b.entries_model(),
        kv_text(a.entries_model()) == kv_text(b.entries_model()),
        kv_json(a.entries_model()) == kv_json(b.entries_model()),
{
    lemma_sorted_entries_unique(a.entries_model(), b.entries_model());
}

/// An annotation map holding exactly the pair `(k, v)` renders as the
/// canonical text and JSON forms of `v` under `k` — for every supported
/// value kind, the rendered forms embed `value_text(v)` and `value_json(v)`
/// exactly.
pub proof fn lemma_single_entry_render(kv: KeyValue, k: Seq<char>, v: ValueModel)
    requires
        kv.wf(),
        kv@ == Map::<Seq<char>, ValueModel>::empty().insert(k, v),
    ensures
        kv.entries_model() == seq![(k, v)],
        kv_text(kv.entries_model()) == "ErrorInfo { "@ + (k + seq![':', ' '] + value_text(v))
            + " }"@,
        kv_json(kv.entries_model()) == seq!['{'] + (json_str_lit(k) + seq![':'] + value_json(v))
            + seq!['}'],
{
    let s = seq![(k, v)];
    assert(sorted_keys(s));
    assert(kvs_map(s) =~= Map::<Seq<char>, ValueModel>::empty().insert(k, v)) by {
        assert(s.drop_first() =~= Seq::<(Seq<char>, ValueModel)>::empty());
        assert(kvs_map(s.drop_first()) == Map::<Seq<char>, ValueModel>::empty());
        assert(s[0] == (k, v));
    }
    lemma_sorted_entries_unique(kv.entries_model(), s);
}

/// A duplicate key within one annotation map is a programming error that
/// `insert`'s precondition rules out; the same key in two *different* maps
/// never interferes. Here `a0`/`b0` are two maps before, and `a1`/`b1` the
/// maps after, the same key is placed in each, as `insert`'s postcondition
/// describes the step: each map then holds its own value under the key,
/// every other key of each map keeps the value it had, and removing the key
/// again from either map uncovers exactly that map's prior content.
pub proof fn lemma_insert_independent(
    a0: KeyValue,
    a1: KeyValue,
    b0: KeyValue,
    b1: KeyValue,
    k: Seq<char>,
    va: ValueModel,
    vb: ValueModel,
)
    requires
        !a0@.contains_key(k),
        !b0@.contains_key(k),
        a1@ == a0@.insert(k, va),
        b1@ == b0@.insert(k, vb),
    ensures
        a1@[k] == va,
        b1@[k] == vb,
        a1@.remove(k) == a0@,
        b1@.remove(k) == b0@,
        forall|k2: Seq<char>|
            k2 != k ==> (#[trigger] a1@.contains_key(k2) <==> a0@.contains_key(k2)),
        forall|k2: Seq<char>| k2 != k && a0@.contains_key(k2) ==> #[trigger] a1@[k2] == a0@[k2],
        forall|k2: Seq<char>|
            k2 != k ==> (#[trigger] b1@.contains_key(k2) <==> b0@.contains_key(k2)),
        forall|k2: Seq<char>| k2 != k && b0@.contains_key(k2) ==> #[trigger] b1@[k2] == b0@[k2],
{
    assert(a1@.remove(k) =~= a0@);
    assert(b1@.remove(k) =~= b0@);
}

} // verus!
