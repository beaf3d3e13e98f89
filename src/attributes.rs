use vstd::prelude::*;

verus! {

/// A value entry of a layer's dictionary. At most one field is expected to be
/// set; floating-point fields are carried as their IEEE-754 bit patterns.
#[derive(Debug, Clone, PartialEq, Default)]
pub struct TileValue {
    pub string_value: Option<String>,
    pub float_bits: Option<u32>,
    pub double_bits: Option<u64>,
    pub int_value: Option<i64>,
    pub uint_value: Option<u64>,
    pub sint_value: Option<i64>,
    pub bool_value: Option<bool>,
}

/// The mathematical value of `TileValue`.
pub struct TileValueView {
    pub string_value: Option<Seq<char>>,
    pub float_bits: Option<u32>,
    pub double_bits: Option<u64>,
    pub int_value: Option<i64>,
    pub uint_value: Option<u64>,
    pub sint_value: Option<i64>,
    pub bool_value: Option<bool>,
}

pub open spec fn opt_string_view(s: Option<String>) -> Option<Seq<char>> {
    match s {
        Some(v) => Some(v@),
        None => None,
    }
}

impl View for TileValue {
    type V = TileValueView;

    open spec fn view(&self) -> TileValueView {
        TileValueView {
            string_value: opt_string_view(self.string_value),
            float_bits: self.float_bits,
            double_bits: self.double_bits,
            int_value: self.int_value,
            uint_value: self.uint_value,
            sint_value: self.sint_value,
            bool_value: self.bool_value,
        }
    }
}

/// A resolved property value.
#[derive(Debug, Clone, PartialEq)]
pub enum PropertyValue {
    Str(String),
    /// A single-precision float, as its bit pattern.
    Float(u32),
    /// A double-precision float, as its bit pattern.
    Double(u64),
    Int(i64),
    UInt(u64),
    SInt(i64),
    Bool(bool),
    Null,
}

/// The mathematical value of `PropertyValue`.
pub enum PropertyValueView {
    Str(Seq<char>),
    Float(u32),
    Double(u64),
    Int(i64),
    UInt(u64),
    SInt(i64),
    Bool(bool),
    Null,
}

impl View for PropertyValue {
    type V = PropertyValueView;

    open spec fn view(&self) -> PropertyValueView {
        match self {
            PropertyValue::Str(s) => PropertyValueView::Str(s@),
            PropertyValue::Float(b) => PropertyValueView::Float(*b),
            PropertyValue::Double(b) => PropertyValueView::Double(*b),
            PropertyValue::Int(v) => PropertyValueView::Int(*v),
            PropertyValue::UInt(v) => PropertyValueView::UInt(*v),
            PropertyValue::SInt(v) => PropertyValueView::SInt(*v),
            PropertyValue::Bool(v) => PropertyValueView::Bool(*v),
            PropertyValue::Null => PropertyValueView::Null,
        }
    }
}

/// The property value a dictionary entry resolves to: the first set field in
/// the order string, float, double, int, uint, sint, bool; none set is null.
pub open spec fn value_of(v: TileValueView) -> PropertyValueView {
    if v.string_value is Some {
        PropertyValueView::Str(v.string_value->0)
    } else if v.float_bits is Some {
        PropertyValueView::Float(v.float_bits->0)
    } else if v.double_bits is Some {
        PropertyValueView::Double(v.double_bits->0)
    } else if v.int_value is Some {
        PropertyValueView::Int(v.int_value->0)
    } else if v.uint_value is Some {
        PropertyValueView::UInt(v.uint_value->0)
    } else if v.sint_value is Some {
        PropertyValueView::SInt(v.sint_value->0)
    } else if v.bool_value is Some {
        PropertyValueView::Bool(v.bool_value->0)
    } else {
        PropertyValueView::Null
    }
}

/// Resolves a dictionary entry into a typed property value.
pub fn convert_value(value: &TileValue) -> (r: PropertyValue)
    ensures
        r@ == value_of(value@),
{
    if let Some(v) = &value.string_value {
        PropertyValue::Str(v.clone())
    } else if let Some(v) = value.float_bits {
        PropertyValue::Float(v)
    } else if let Some(v) = value.double_bits {
        PropertyValue::Double(v)
    } else if let Some(v) = value.int_value {
        PropertyValue::Int(v)
    } else if let Some(v) = value.uint_value {
        PropertyValue::UInt(v)
    } else if let Some(v) = value.sint_value {
        PropertyValue::SInt(v)
    } else if let Some(v) = value.bool_value {
        PropertyValue::Bool(v)
    } else {
        PropertyValue::Null
    }
}

/// One key/value entry of a feature's properties.
#[derive(Debug, Clone, PartialEq)]
pub struct Property {
    pub key: String,
    pub value: PropertyValue,
}

/// The mapping that a list of properties stands for; a later entry overrides
/// an earlier one with the same key.
pub open spec fn property_map(s: Seq<Property>) -> Map<Seq<char>, PropertyValueView>
    decreases s.len(),
{
    if s.len() == 0 {
        Map::empty()
    } else {
        property_map(s.drop_last()).insert(s.last().key@, s.last().value@)
    }
}

/// No two entries share a key.
pub open spec fn keys_distinct(s: Seq<Property>) -> bool {
    forall|i: int, j: int| 0 <= i < j < s.len() ==> s[i].key@ != s[j].key@
}

/// Whether tag pair `j` refers to an existing key and an existing value.
pub open spec fn tag_pair_valid(tags: Seq<u32>, n_keys: int, n_values: int, j: int) -> bool {
    2 * j + 1 < tags.len() && tags[2 * j] < n_keys && tags[2 * j + 1] < n_values
}

/// The properties that the first `n` tag pairs resolve to.
pub open spec fn resolve_pairs(
    tags: Seq<u32>,
    keys: Seq<Seq<char>>,
    values: Seq<TileValueView>,
    n: nat,
) -> Map<Seq<char>, PropertyValueView>
    decreases n,
{
    if n == 0 {
        Map::empty()
    } else {
        let m = resolve_pairs(tags, keys, values, (n - 1) as nat);
        let j = n - 1;
        if tag_pair_valid(tags, keys.len() as int, values.len() as int, j) {
            m.insert(keys[tags[2 * j] as int], value_of(values[tags[2 * j + 1] as int]))
        } else {
            m
        }
    }
}

/// The properties that a feature's tag list resolves to: each complete pair
/// whose indices are both in range, later pairs overriding earlier ones.
pub open spec fn resolve_tags(
    tags: Seq<u32>,
    keys: Seq<Seq<char>>,
    values: Seq<TileValueView>,
) -> Map<Seq<char>, PropertyValueView> {
    resolve_pairs(tags, keys, values, tags.len() / 2)
}

pub open spec fn keys_view(keys: Seq<String>) -> Seq<Seq<char>> {
    keys.map_values(|k: String| k@)
}

pub open spec fn values_view(values: Seq<TileValue>) -> Seq<TileValueView> {
    values.map_values(|v: TileValue| v@)
}

proof fn lemma_property_map_domain(s: Seq<Property>, k: Seq<char>)
    ensures
        property_map(s).contains_key(k) <==> exists|i: int| 0 <= i < s.len() && s[i].key@ == k,
    decreases s.len(),
{
    if s.len() > 0 {
        lemma_property_map_domain(s.drop_last(), k);
        if property_map(s.drop_last()).contains_key(k) {
            let i = choose|i: int| 0 <= i < s.len() - 1 && s.drop_last()[i].key@ == k;
            assert(s[i].key@ == k);
        }
        if exists|i: int| 0 <= i < s.len() && s[i].key@ == k {
            let i = choose|i: int| 0 <= i < s.len() && s[i].key@ == k;
            if i < s.len() - 1 {
                assert(s.drop_last()[i].key@ == k);
            }
        }
    }
}

proof fn lemma_property_map_value(s: Seq<Property>, i: int)
    requires
        keys_distinct(s),
        0 <= i < s.len(),
    ensures
        property_map(s).contains_key(s[i].key@),
        property_map(s)[s[i].key@] == s[i].value@,
    decreases s.len(),
{
    if i < s.len() - 1 {
        assert(s.drop_last()[i] == s[i]);
        lemma_property_map_value(s.drop_last(), i);
    }
}

proof fn lemma_property_map_update(s: Seq<Property>, i: int, p: Property)
    requires
        keys_distinct(s),
        0 <= i < s.len(),
        p.key@ == s[i].key@,
    ensures
        keys_distinct(s.update(i, p)),
        property_map(s.update(i, p)) == property_map(s).insert(p.key@, p.value@),
{
    let t = s.update(i, p);
    assert forall|k: Seq<char>|
        property_map(t).contains_key(k) <==> property_map(s).insert(
            p.key@,
            p.value@,
        ).contains_key(k) by {
        lemma_property_map_domain(t, k);
        lemma_property_map_domain(s, k);
        if exists|j: int| 0 <= j < s.len() && s[j].key@ == k {
            let j = choose|j: int| 0 <= j < s.len() && s[j].key@ == k;
            assert(t[j].key@ == k);
        }
        if exists|j: int| 0 <= j < t.len() && t[j].key@ == k {
            let j = choose|j: int| 0 <= j < t.len() && t[j].key@ == k;
            assert(s[j].key@ == k);
        }
    }
    assert forall|k: Seq<char>| #[trigger]
        property_map(t).contains_key(k) implies property_map(t)[k] == property_map(s).insert(
            p.key@,
            p.value@,
        )[k] by {
        lemma_property_map_domain(t, k);
        let j = choose|j: int| 0 <= j < t.len() && t[j].key@ == k;
        lemma_property_map_value(t, j);
        if j != i {
            lemma_property_map_value(s, j);
        }
    }
    assert(property_map(t) =~= property_map(s).insert(p.key@, p.value@));
}

/// Resolves a feature's tag list against its layer's key and value
/// dictionaries. Pairs with an index out of range, and a trailing unpaired
/// index, are skipped.
pub fn resolve_properties(
    tags: &[u32],
    keys: &Vec<String>,
    values: &Vec<TileValue>,
) -> (r: Vec<Property>)
    ensures
        keys_distinct(r@),
        property_map(r@) == resolve_tags(tags@, keys_view(keys@), values_view(values@)),
{
    let ghost kv = keys_view(keys@);
    let ghost vv = values_view(values@);
    let mut props: Vec<Property> = Vec::new();
    let n_pairs = tags.len() / 2;
    let mut j: usize = 0;
    assert(property_map(props@) =~= Map::empty());
    while j < n_pairs
        invariant
            n_pairs == tags.len() / 2,
            j <= n_pairs,
            kv == keys_view(keys@),
            vv == values_view(values@),
            keys_distinct(props@),
            property_map(props@) == resolve_pairs(tags@, kv, vv, j as nat),
        decreases n_pairs - j,
    {
        let key_idx = tags[2 * j] as usize;
        let val_idx = tags[2 * j + 1] as usize;
        if key_idx < keys.len() && val_idx < values.len() {
            let key = keys[key_idx].clone();
            let value = convert_value(&values[val_idx]);
            assert(kv[key_idx as int] == key@);
            assert(vv[val_idx as int] == values[val_idx as int]@);
            let p = Property { key, value };
            let mut k: usize = 0;
            let mut found: bool = false;
            while k < props.len()
                invariant_except_break
                    !found,
                invariant
                    k <= props.len(),
                    forall|i: int| 0 <= i < k ==> props@[i].key@ != p.key@,
                ensures
                    found ==> k < props.len() && props@[k as int].key@ == p.key@,
                    !found ==> forall|i: int| 0 <= i < props.len() ==> props@[i].key@ != p.key@,
                decreases props.len() - k,
            {
                if props[k].key == p.key {
                    found = true;
                    break;
                }
                k = k + 1;
            }
            let ghost before = props@;
            if found {
                proof {
                    lemma_property_map_update(before, k as int, p);
                }
                props.set(k, p);
            } else {
                props.push(p);
                assert(props@.drop_last() =~= before);
            }
        }
        j = j + 1;
    }
    props
}

/// The tag list with pair `j` taken out.
pub open spec fn without_pair(tags: Seq<u32>, j: int) -> Seq<u32> {
    tags.subrange(0, 2 * j) + tags.subrange(2 * j + 2, tags.len() as int)
}

proof fn lemma_resolve_before_pair(
    tags: Seq<u32>,
    keys: Seq<Seq<char>>,
    values: Seq<TileValueView>,
    j: int,
    n: nat,
)
    requires
        0 <= j,
        2 * j + 1 < tags.len(),
        n <= j,
    ensures
        resolve_pairs(tags, keys, values, n) == resolve_pairs(without_pair(tags, j), keys, values, n),
    decreases n,
{
    let r = without_pair(tags, j);
    if n > 0 {
        lemma_resolve_before_pair(tags, keys, values, j, (n - 1) as nat);
        let i = n - 1;
        assert(r[2 * i] == tags[2 * i]);
        assert(r[2 * i + 1] == tags[2 * i + 1]);
    }
}

proof fn lemma_resolve_after_pair(
    tags: Seq<u32>,
    keys: Seq<Seq<char>>,
    values: Seq<TileValueView>,
    j: int,
    m: nat,
)
    requires
        0 <= j,
        2 * j + 1 < tags.len(),
        !tag_pair_valid(tags, keys.len() as int, values.len() as int, j),
        j < m,
    ensures
        resolve_pairs(tags, keys, values, m) == resolve_pairs(
            without_pair(tags, j),
            keys,
            values,
            (m - 1) as nat,
        ),
    decreases m,
{
    let r = without_pair(tags, j);
    if m == j + 1 {
        lemma_resolve_before_pair(tags, keys, values, j, j as nat);
    } else {
        lemma_resolve_after_pair(tags, keys, values, j, (m - 1) as nat);
        let i = m - 1;
        assert(2 * i + 1 < tags.len() <==> 2 * (i - 1) + 1 < r.len());
        if 2 * i + 1 < tags.len() {
            assert(r[2 * (i - 1)] == tags[2 * i]);
            assert(r[2 * (i - 1) + 1] == tags[2 * i + 1]);
        }
    }
}

/// A tag pair whose key index or value index is out of range contributes
/// nothing: the properties are those of the tag list without it, so every
/// other pair is kept.
pub proof fn lemma_out_of_range_pair_dropped(
    tags: Seq<u32>,
    keys: Seq<Seq<char>>,
    values: Seq<TileValueView>,
    j: int,
)
    requires
        0 <= j,
        2 * j + 1 < tags.len(),
        tags[2 * j] >= keys.len() || tags[2 * j + 1] >= values.len(),
    ensures
        resolve_tags(tags, keys, values) == resolve_tags(without_pair(tags, j), keys, values),
{
    let r = without_pair(tags, j);
    assert(r.len() / 2 == tags.len() / 2 - 1);
    lemma_resolve_after_pair(tags, keys, values, j, (tags.len() / 2) as nat);
}

} // verus!
