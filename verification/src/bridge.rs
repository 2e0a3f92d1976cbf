//! The conversions that an error enum exposes to the enums that wrap it.
//!
//! An error enum marks some of its variants as bridged. For each bridged
//! variant whose fields are unnamed, the error type of its first field gets a
//! conversion into any wrapping enum, through the variant. Where two bridged
//! variants wrap the same type, only the first one is used, so that no type
//! gets two conversions.
use vstd::prelude::*;
use vstd::string::*;
use crate::text::{lowercase, text_lowercase};
use crate::validation::same_text;

verus! {

/// The fields of a variant: named, unnamed (their types, as written), or none.
#[derive(Debug, Clone, PartialEq, Eq)]
pub enum FieldsShape {
    Named,
    Unnamed(Vec<String>),
    Unit,
}

/// A variant of an error enum: its name, whether it is marked as bridged,
/// and its fields.
#[derive(Debug, Clone, PartialEq, Eq)]
pub struct VariantShape {
    pub name: String,
    pub bridge: bool,
    pub fields: FieldsShape,
}

/// An error enum: its name and its variants, in order. A type that is not an
/// enum has no variants.
#[derive(Debug, Clone, PartialEq, Eq)]
pub struct EnumShape {
    pub name: String,
    pub variants: Vec<VariantShape>,
}

/// The event a conversion logs each time it runs: its level, the source
/// type (`error_type`, as written in the enum; the event carries the name
/// `std::any::type_name` gives it), the variant (`error_variant`), and a
/// message that the wrapping enum's name completes.
#[derive(Debug, Clone, PartialEq, Eq)]
pub struct ConversionLog {
    pub level: String,
    pub error_type: String,
    pub error_variant: String,
    pub message_prefix: String,
}

/// A conversion: values of the source type become the variant, and the
/// conversion is logged.
#[derive(Debug, Clone, PartialEq, Eq)]
pub struct BridgeConversion {
    pub variant: String,
    pub source_type: String,
    pub log: ConversionLog,
}

/// A conversion logs an `error` event naming its source type and variant,
/// with the message `Error bridged to ` followed by the wrapping enum's name.
pub open spec fn logs_bridging(c: BridgeConversion) -> bool {
    &&& c.log.level@ == "error"@
    &&& c.log.error_type@ == c.source_type@
    &&& c.log.error_variant@ == c.variant@
    &&& c.log.message_prefix@ == "Error bridged to "@
}

fn conversion(variant: &String, source_type: &String) -> (r: BridgeConversion)
    ensures
        r.variant@ == variant@,
        r.source_type@ == source_type@,
        logs_bridging(r),
{
    BridgeConversion {
        variant: variant.clone(),
        source_type: source_type.clone(),
        log: ConversionLog {
            level: String::from_str("error"),
            error_type: source_type.clone(),
            error_variant: variant.clone(),
            message_prefix: String::from_str("Error bridged to "),
        },
    }
}

/// What an error enum exposes: the name of the generated macro
/// (`propagate_` and the enum's name in lower case), the enum's name, and
/// its conversions in the order of the variants.
#[derive(Debug, Clone, PartialEq, Eq)]
pub struct StructureExporter {
    pub macro_name: String,
    pub enum_name: String,
    pub conversions: Vec<BridgeConversion>,
}

/// The type of the first unnamed field, if the fields are unnamed and there is one.
pub open spec fn first_unnamed(f: FieldsShape) -> Option<Seq<char>> {
    match f {
        FieldsShape::Unnamed(types) => if types@.len() > 0 {
            Some(types@[0]@)
        } else {
            None
        },
        _ => None,
    }
}

/// The type a variant offers for a conversion: that of its first unnamed
/// field, when the variant is bridged.
pub open spec fn offered_type(v: VariantShape) -> Option<Seq<char>> {
    if v.bridge {
        first_unnamed(v.fields)
    } else {
        None
    }
}

/// The source types of a list of conversions.
pub open spec fn source_types(cs: Seq<(Seq<char>, Seq<char>)>) -> Seq<Seq<char>> {
    cs.map_values(|c: (Seq<char>, Seq<char>)| c.1)
}

/// The conversions of a list of variants, as (variant, source type): each
/// offered type, through the first variant that offers it.
pub open spec fn bridged(vs: Seq<VariantShape>) -> Seq<(Seq<char>, Seq<char>)>
    decreases vs.len(),
{
    if vs.len() == 0 {
        Seq::empty()
    } else {
        let prev = bridged(vs.drop_last());
        match offered_type(vs.last()) {
            Some(ty) => if source_types(prev).contains(ty) {
                prev
            } else {
                prev.push((vs.last().name@, ty))
            },
            None => prev,
        }
    }
}

/// The name of the macro an enum's conversions are exposed through.
pub open spec fn exporter_macro_name(enum_name: Seq<char>) -> Seq<char> {
    "propagate_"@ + text_lowercase(enum_name)
}

/// The conversions as (variant, source type).
pub open spec fn conversions_view(cs: Seq<BridgeConversion>) -> Seq<(Seq<char>, Seq<char>)> {
    cs.map_values(|c: BridgeConversion| (c.variant@, c.source_type@))
}

/// No two conversions share a source type.
pub open spec fn unique_sources(cs: Seq<(Seq<char>, Seq<char>)>) -> bool {
    forall|i: int, j: int| 0 <= i < j < cs.len() ==> #[trigger] cs[i].1 != #[trigger] cs[j].1
}

/// Variant `k` offers the type, and no earlier variant does.
pub open spec fn first_offer(vs: Seq<VariantShape>, k: int, ty: Seq<char>) -> bool {
    &&& 0 <= k < vs.len()
    &&& offered_type(vs[k]) == Some(ty)
    &&& forall|m: int| 0 <= m < k ==> offered_type(#[trigger] vs[m]) != Some(ty)
}

/// The conversion goes through the first variant that offers its type.
pub open spec fn routed(vs: Seq<VariantShape>, c: (Seq<char>, Seq<char>)) -> bool {
    exists|k: int| #[trigger] first_offer(vs, k, c.1) && vs[k].name@ == c.0
}

/// The conversions of some variants never repeat a source type, every type
/// that a variant offers has a conversion, and every conversion goes
/// through the first variant that offers its type.
pub proof fn lemma_bridged(vs: Seq<VariantShape>)
    ensures
        unique_sources(bridged(vs)),
        forall|k: int|
            0 <= k < vs.len() && (#[trigger] offered_type(vs[k])) is Some
                ==> source_types(bridged(vs)).contains(offered_type(vs[k])->0),
        forall|i: int| 0 <= i < bridged(vs).len() ==> #[trigger] routed(vs, bridged(vs)[i]),
    decreases vs.len(),
{
    if vs.len() > 0 {
        let init = vs.drop_last();
        lemma_bridged(init);
        let prev = bridged(init);
        let cur = bridged(vs);
        let last = vs.last();
        let n = vs.len() - 1;
        assert forall|k: int| 0 <= k < n implies vs[k] == init[k] by {}
        assert forall|i: int| 0 <= i < prev.len() implies #[trigger] source_types(prev)[i] == prev[i].1 by {}
        // Offers among the first variants keep their witnesses.
        assert forall|k: int, ty: Seq<char>| #[trigger] first_offer(init, k, ty) implies first_offer(vs, k, ty) by {
            assert forall|m: int| 0 <= m < k implies offered_type(#[trigger] vs[m]) != Some(ty) by {
                assert(vs[m] == init[m]);
            }
        }
        let added = match offered_type(last) {
            Some(ty) => !source_types(prev).contains(ty),
            None => false,
        };
        if added {
            let ty = offered_type(last)->0;
            assert(cur == prev.push((last.name@, ty)));
            assert(source_types(cur) =~= source_types(prev).push(ty));
            assert forall|i: int, j: int| 0 <= i < j < cur.len() implies #[trigger] cur[i].1 != #[trigger] cur[j].1 by {
                if j == prev.len() {
                    assert(source_types(prev)[i] == prev[i].1);
                }
            }
            assert forall|k: int| 0 <= k < vs.len() && (#[trigger] offered_type(vs[k])) is Some implies
                source_types(cur).contains(offered_type(vs[k])->0) by {
                if k < n {
                    assert(vs[k] == init[k]);
                    let w = choose|w: int| 0 <= w < source_types(prev).len() && source_types(prev)[w] == offered_type(vs[k])->0;
                    assert(source_types(cur)[w] == source_types(prev)[w]);
                } else {
                    assert(source_types(cur)[prev.len() as int] == ty);
                }
            }
            assert forall|i: int| 0 <= i < cur.len() implies #[trigger] routed(vs, cur[i]) by {
                if i < prev.len() {
                    assert(cur[i] == prev[i]);
                    assert(routed(init, prev[i]));
                    let k = choose|k: int| #[trigger] first_offer(init, k, prev[i].1) && init[k].name@ == prev[i].0;
                    assert(first_offer(vs, k, cur[i].1) && vs[k].name@ == cur[i].0);
                } else {
                    assert(vs[n] == last);
                    assert forall|m: int| 0 <= m < n implies offered_type(#[trigger] vs[m]) != Some(ty) by {
                        assert(vs[m] == init[m]);
                        if offered_type(init[m]) == Some(ty) {
                            assert(source_types(prev).contains(ty));
                        }
                    }
                    assert(first_offer(vs, n, cur[i].1) && vs[n].name@ == cur[i].0);
                }
            }
        } else {
            assert(cur == prev);
            assert forall|k: int| 0 <= k < vs.len() && (#[trigger] offered_type(vs[k])) is Some implies
                source_types(prev).contains(offered_type(vs[k])->0) by {
                if k < n {
                    assert(vs[k] == init[k]);
                } else {
                    assert(vs[k] == last);
                }
            }
            assert forall|i: int| 0 <= i < prev.len() implies #[trigger] routed(vs, prev[i]) by {
                assert(routed(init, prev[i]));
                    let k = choose|k: int| #[trigger] first_offer(init, k, prev[i].1) && init[k].name@ == prev[i].0;
                assert(first_offer(vs, k, prev[i].1) && vs[k].name@ == prev[i].0);
            }
        }
    }
}

/// Which conversions the variants give, said of the variants themselves: a
/// variant marked as bridged whose fields are unnamed gives its first
/// field's type a conversion; every conversion comes from such a variant,
/// the first one with that type; no type has two conversions.
pub proof fn lemma_bridged_variants(vs: Seq<VariantShape>)
    ensures
        forall|k: int|
            0 <= k < vs.len() && (#[trigger] vs[k]).bridge && vs[k].fields is Unnamed
                && vs[k].fields->Unnamed_0@.len() > 0
                ==> source_types(bridged(vs)).contains(vs[k].fields->Unnamed_0@[0]@),
        forall|i: int| 0 <= i < bridged(vs).len() ==> exists|k: int|
            0 <= k < vs.len() && (#[trigger] vs[k]).bridge && vs[k].fields is Unnamed
                && vs[k].fields->Unnamed_0@.len() > 0
                && vs[k].fields->Unnamed_0@[0]@ == (#[trigger] bridged(vs)[i]).1
                && vs[k].name@ == bridged(vs)[i].0,
        forall|i: int, j: int| 0 <= i < j < bridged(vs).len() ==> #[trigger] bridged(vs)[i].1 != #[trigger] bridged(vs)[j].1,
{
    lemma_bridged(vs);
    assert forall|k: int|
        0 <= k < vs.len() && (#[trigger] vs[k]).bridge && vs[k].fields is Unnamed
            && vs[k].fields->Unnamed_0@.len() > 0
            implies source_types(bridged(vs)).contains(vs[k].fields->Unnamed_0@[0]@) by {
        assert(offered_type(vs[k]) == Some(vs[k].fields->Unnamed_0@[0]@));
    }
    assert forall|i: int| 0 <= i < bridged(vs).len() implies exists|k: int|
        0 <= k < vs.len() && (#[trigger] vs[k]).bridge && vs[k].fields is Unnamed
            && vs[k].fields->Unnamed_0@.len() > 0
            && vs[k].fields->Unnamed_0@[0]@ == (#[trigger] bridged(vs)[i]).1
            && vs[k].name@ == bridged(vs)[i].0 by {
        assert(routed(vs, bridged(vs)[i]));
        let k = choose|k: int| #[trigger] first_offer(vs, k, bridged(vs)[i].1) && vs[k].name@ == bridged(vs)[i].0;
        assert(offered_type(vs[k]) == Some(bridged(vs)[i].1));
    }
}

/// Whether one of the conversions has the given source type.
fn has_source_type(cs: &Vec<BridgeConversion>, ty: &str) -> (r: bool)
    ensures
        r == source_types(conversions_view(cs@)).contains(ty@),
{
    let ghost types = source_types(conversions_view(cs@));
    let mut i: usize = 0;
    while i < cs.len()
        invariant
            i <= cs.len(),
            types == source_types(conversions_view(cs@)),
            types.len() == cs@.len(),
            forall|j: int| 0 <= j < i ==> types[j] != ty@,
        decreases cs.len() - i,
    {
        assert(types[i as int] == cs@[i as int].source_type@);
        if same_text(cs[i].source_type.as_str(), ty) {
            assert(types[i as int] == ty@);
            return true;
        }
        i = i + 1;
    }
    false
}

/// The type of a variant's first unnamed field, if it has one.
fn first_unnamed_type(fields: &FieldsShape) -> (r: Option<&String>)
    ensures
        match r {
            Some(t) => first_unnamed(*fields) == Some(t@),
            None => first_unnamed(*fields) is None,
        },
{
    match fields {
        FieldsShape::Unnamed(types) => if types.len() > 0 {
            Some(&types[0])
        } else {
            None
        },
        _ => None,
    }
}

/// What an error enum exposes: for each bridged variant with unnamed
/// fields, in order, a conversion from the type of its first field, unless
/// an earlier variant already gave that type one, which logs an `error`
/// event each time it runs; and the name of the macro that carries them,
/// `propagate_` and the enum's name in lower case.
pub fn implement_structure_exporter(input: &EnumShape) -> (r: StructureExporter)
    ensures
        r.macro_name@ == exporter_macro_name(input.name@),
        r.enum_name@ == input.name@,
        conversions_view(r.conversions@) == bridged(input.variants@),
        forall|i: int| 0 <= i < r.conversions@.len() ==> logs_bridging(#[trigger] r.conversions@[i]),
{
    let mut conversions: Vec<BridgeConversion> = Vec::new();
    let mut i: usize = 0;
    proof {
        assert(input.variants@.take(0) =~= Seq::<VariantShape>::empty());
        assert(conversions_view(conversions@) =~= Seq::<(Seq<char>, Seq<char>)>::empty());
    }
    while i < input.variants.len()
        invariant
            i <= input.variants.len(),
            conversions_view(conversions@) == bridged(input.variants@.take(i as int)),
            forall|j: int| 0 <= j < conversions@.len() ==> logs_bridging(#[trigger] conversions@[j]),
        decreases input.variants.len() - i,
    {
        let v = &input.variants[i];
        let ghost before = conversions_view(conversions@);
        proof {
            assert(input.variants@.take(i + 1).drop_last() =~= input.variants@.take(i as int));
            assert(input.variants@.take(i + 1).last() == *v);
        }
        if v.bridge {
            match first_unnamed_type(&v.fields) {
                Some(ty) => {
                    if !has_source_type(&conversions, ty.as_str()) {
                        conversions.push(conversion(&v.name, ty));
                        proof {
                            assert(conversions_view(conversions@) =~= before.push((v.name@, ty@)));
                        }
                    }
                },
                None => {},
            }
        }
        i = i + 1;
    }
    proof {
        assert(input.variants@.take(i as int) =~= input.variants@);
    }
    let lower = lowercase(input.name.as_str());
    StructureExporter {
        macro_name: String::from_str("propagate_").concat(lower.as_str()),
        enum_name: input.name.clone(),
        conversions,
    }
}

} // verus!
