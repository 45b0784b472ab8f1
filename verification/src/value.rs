//! The document node type shared by the torrent metadata decoder and the
//! manifest decoder: integers, byte strings, lists and keyed maps, plus the
//! few extra node kinds a manifest document can carry.

use vstd::prelude::*;

verus! {

/// Why a document failed to decode.
#[derive(Debug, Clone, Copy, PartialEq, Eq, Structural)]
pub enum DecodeError {
    /// A required field of the metadata document is absent: its `info`
    /// mapping, or `name`, `piece length` or `pieces` inside it.
    MissingField,
    /// A field holds the wrong kind of value, a file record is malformed
    /// (a missing or ill-typed path or length), or the document selects
    /// neither or both of the single-file and multi-file shapes.
    InvalidShape,
    /// The underlying serialization is not syntactically well formed.
    MalformedBytes,
}

/// Mathematical model of a document node.
pub enum SpecValue {
    Int(int),
    Bytes(Seq<u8>),
    List(Seq<SpecValue>),
    Dict(Seq<(Seq<u8>, SpecValue)>),
    Bool(bool),
    Null,
    Other,
}

/// One node of a decoded self-describing document.
///
/// Torrent metadata documents produce only `Int`, `Bytes`, `List` and `Dict`
/// nodes; manifest documents may also produce `Bool`, `Null` and `Other`
/// (a number that is not a 64-bit integer). Field decoding is shared between
/// the two decoders by working on this one type.
pub enum DocValue {
    Int(i64),
    Bytes(Vec<u8>),
    List(Vec<DocValue>),
    Dict(Vec<(Vec<u8>, DocValue)>),
    Bool(bool),
    Null,
    Other,
}

pub open spec fn value_view(v: DocValue) -> SpecValue
    decreases v,
{
    match v {
        DocValue::Int(n) => SpecValue::Int(n as int),
        DocValue::Bytes(b) => SpecValue::Bytes(b@),
        DocValue::List(vs) => SpecValue::List(list_view(vs@)),
        DocValue::Dict(ps) => SpecValue::Dict(pairs_view(ps@)),
        DocValue::Bool(b) => SpecValue::Bool(b),
        DocValue::Null => SpecValue::Null,
        DocValue::Other => SpecValue::Other,
    }
}

pub open spec fn list_view(vs: Seq<DocValue>) -> Seq<SpecValue>
    decreases vs,
{
    if vs.len() == 0 {
        Seq::empty()
    } else {
        seq![value_view(vs[0])] + list_view(vs.subrange(1, vs.len() as int))
    }
}

pub open spec fn pairs_view(ps: Seq<(Vec<u8>, DocValue)>) -> Seq<(Seq<u8>, SpecValue)>
    decreases ps,
{
    if ps.len() == 0 {
        Seq::empty()
    } else {
        seq![(ps[0].0@, value_view(ps[0].1))] + pairs_view(ps.subrange(1, ps.len() as int))
    }
}

impl View for DocValue {
    type V = SpecValue;

    open spec fn view(&self) -> SpecValue {
        value_view(*self)
    }
}

pub proof fn lemma_list_view(vs: Seq<DocValue>)
    ensures
        list_view(vs).len() == vs.len(),
        forall|i: int| 0 <= i < vs.len() ==> list_view(vs)[i] == value_view(vs[i]),
    decreases vs,
{
    if vs.len() > 0 {
        lemma_list_view(vs.subrange(1, vs.len() as int));
    }
}

pub proof fn lemma_pairs_view(ps: Seq<(Vec<u8>, DocValue)>)
    ensures
        pairs_view(ps).len() == ps.len(),
        forall|i: int| 0 <= i < ps.len() ==> pairs_view(ps)[i] == (ps[i].0@, value_view(
            ps[i].1,
        )),
    decreases ps,
{
    if ps.len() > 0 {
        lemma_pairs_view(ps.subrange(1, ps.len() as int));
    }
}

pub broadcast proof fn lemma_bytes_deep_view(v: Vec<u8>)
    ensures
        #[trigger] v.deep_view() == v@,
{
    assert(v.deep_view() =~= v@);
}

pub broadcast proof fn lemma_opt_bytes_deep_view(o: Option<Vec<u8>>)
    ensures
        #[trigger] o.deep_view() == (match o {
            Some(b) => Some(b@),
            None => None::<Seq<u8>>,
        }),
{
    match o {
        Some(b) => {
            assert(b.deep_view() =~= b@);
        },
        None => {},
    }
}

/// Byte-for-byte comparison of two byte strings.
pub fn bytes_eq(a: &[u8], b: &[u8]) -> (r: bool)
    ensures
        r == (a@ == b@),
{
    if a.len() != b.len() {
        return false;
    }
    let mut i: usize = 0;
    while i < a.len()
        invariant
            i <= a@.len(),
            a@.len() == b@.len(),
            forall|j: int| 0 <= j < i ==> a@[j] == b@[j],
        decreases a@.len() - i,
    {
        if a[i] != b[i] {
            return false;
        }
        i = i + 1;
    }
    proof {
        assert(a@ =~= b@);
    }
    true
}

/// The value of the first entry of `d` whose key is `k`, if any.
pub open spec fn dget(d: Seq<(Seq<u8>, SpecValue)>, k: Seq<u8>) -> Option<SpecValue>
    decreases d,
{
    if d.len() == 0 {
        None
    } else if d[0].0 == k {
        Some(d[0].1)
    } else {
        dget(d.subrange(1, d.len() as int), k)
    }
}

/// Looks a key up in a decoded keyed map: the first entry with that key wins.
pub fn vget<'a>(d: &'a Vec<(Vec<u8>, DocValue)>, k: &[u8]) -> (r: Option<&'a DocValue>)
    ensures
        match r {
            Some(v) => dget(pairs_view(d@), k@) == Some(v@),
            None => dget(pairs_view(d@), k@) is None,
        },
{
    let ghost dv = pairs_view(d@);
    proof {
        lemma_pairs_view(d@);
        assert(dv.subrange(0, dv.len() as int) =~= dv);
    }
    let mut i: usize = 0;
    while i < d.len()
        invariant
            i <= d@.len(),
            dv == pairs_view(d@),
            dv.len() == d@.len(),
            forall|j: int| 0 <= j < d@.len() ==> dv[j] == (d@[j].0@, value_view(d@[j].1)),
            dget(dv, k@) == dget(dv.subrange(i as int, dv.len() as int), k@),
        decreases d@.len() - i,
    {
        let p: &(Vec<u8>, DocValue) = &d[i];
        proof {
            assert(dv.subrange(i as int, dv.len() as int)[0] == dv[i as int]);
        }
        if bytes_eq(p.0.as_slice(), k) {
            return Some(&p.1);
        }
        proof {
            assert(dv.subrange(i as int, dv.len() as int).subrange(
                1,
                dv.subrange(i as int, dv.len() as int).len() as int,
            ) =~= dv.subrange(i + 1, dv.len() as int));
        }
        i = i + 1;
    }
    proof {
        assert(dv.subrange(i as int, dv.len() as int) =~= Seq::<(Seq<u8>, SpecValue)>::empty());
    }
    None
}

/// The byte string held by `v`, if it is one.
pub fn as_bytes<'a>(v: &'a DocValue) -> (r: Option<&'a Vec<u8>>)
    ensures
        r is Some <==> v@ is Bytes,
        r matches Some(b) ==> v@ == SpecValue::Bytes(b@),
{
    match v {
        DocValue::Bytes(b) => Some(b),
        DocValue::Int(_) => None,
        DocValue::List(_) => None,
        DocValue::Dict(_) => None,
        DocValue::Bool(_) => None,
        DocValue::Null => None,
        DocValue::Other => None,
    }
}

/// The integer held by `v`, if it is one.
pub fn as_int(v: &DocValue) -> (r: Option<i64>)
    ensures
        r is Some <==> v@ is Int,
        r matches Some(n) ==> v@ == SpecValue::Int(n as int),
{
    match v {
        DocValue::Int(n) => Some(*n),
        DocValue::Bytes(_) => None,
        DocValue::List(_) => None,
        DocValue::Dict(_) => None,
        DocValue::Bool(_) => None,
        DocValue::Null => None,
        DocValue::Other => None,
    }
}

/// The list held by `v`, if it is one.
pub fn as_list<'a>(v: &'a DocValue) -> (r: Option<&'a Vec<DocValue>>)
    ensures
        r is Some <==> v@ is List,
        r matches Some(vs) ==> v@ == SpecValue::List(list_view(vs@)),
{
    match v {
        DocValue::List(vs) => Some(vs),
        DocValue::Int(_) => None,
        DocValue::Bytes(_) => None,
        DocValue::Dict(_) => None,
        DocValue::Bool(_) => None,
        DocValue::Null => None,
        DocValue::Other => None,
    }
}

/// The keyed map held by `v`, if it is one.
pub fn as_dict<'a>(v: &'a DocValue) -> (r: Option<&'a Vec<(Vec<u8>, DocValue)>>)
    ensures
        r is Some <==> v@ is Dict,
        r matches Some(ps) ==> v@ == SpecValue::Dict(pairs_view(ps@)),
{
    match v {
        DocValue::Dict(ps) => Some(ps),
        DocValue::Int(_) => None,
        DocValue::Bytes(_) => None,
        DocValue::List(_) => None,
        DocValue::Bool(_) => None,
        DocValue::Null => None,
        DocValue::Other => None,
    }
}

/// The segments denoted by a path field encoded as a list of byte strings.
pub open spec fn segs_of_list(vs: Seq<SpecValue>) -> Option<Seq<Seq<u8>>>
    decreases vs,
{
    if vs.len() == 0 {
        Some(Seq::empty())
    } else {
        match vs[0] {
            SpecValue::Bytes(b) => match segs_of_list(vs.subrange(1, vs.len() as int)) {
                Some(r) => Some(seq![b] + r),
                None => None,
            },
            _ => None,
        }
    }
}

/// The segments denoted by a path field: a single byte string is one segment,
/// a list of byte strings is the ordered segments, anything else is rejected.
pub open spec fn segs_of(v: SpecValue) -> Option<Seq<Seq<u8>>> {
    match v {
        SpecValue::Bytes(b) => Some(seq![b]),
        SpecValue::List(vs) => segs_of_list(vs),
        _ => None,
    }
}

/// Decodes a path field that may be a single byte string or a list of byte
/// strings; both decoders use this one function.
pub fn decode_segments(v: &DocValue) -> (r: Option<Vec<Vec<u8>>>)
    ensures
        match r {
            Some(segs) => segs_of(v@) == Some(segs.deep_view()),
            None => segs_of(v@) is None,
        },
{
    match v {
        DocValue::Bytes(b) => {
            let mut out: Vec<Vec<u8>> = Vec::new();
            out.push(vstd::slice::slice_to_vec(b.as_slice()));
            proof {
                assert(out.deep_view().len() == 1);
                assert(out.deep_view()[0] == out@[0]@);
                assert(out.deep_view() =~= seq![b@]);
            }
            Some(out)
        },
        DocValue::List(vs) => {
            let ghost lv = list_view(vs@);
            proof {
                lemma_list_view(vs@);
            }
            let mut out: Vec<Vec<u8>> = Vec::new();
            let mut i: usize = 0;
            while i < vs.len()
                invariant
                    i <= vs@.len(),
                    lv == list_view(vs@),
                    v@ == SpecValue::List(lv),
                    lv.len() == vs@.len(),
                    forall|j: int| 0 <= j < vs@.len() ==> lv[j] == value_view(vs@[j]),
                    forall|j: int| 0 <= j < i ==> lv[j] is Bytes,
                    out@.len() == i,
                    forall|j: int| 0 <= j < i ==> out@[j]@ == lv[j]->Bytes_0,
                decreases vs@.len() - i,
            {
                match as_bytes(&vs[i]) {
                    Some(b) => {
                        out.push(vstd::slice::slice_to_vec(b.as_slice()));
                    },
                    None => {
                        proof {
                            lemma_segs_of_list_bad(lv, i as int);
                        }
                        return None;
                    },
                }
                i = i + 1;
            }
            proof {
                assert(forall|j: int| 0 <= j < out@.len() ==> out.deep_view()[j] == out@[j]@);
                lemma_segs_of_list_all(lv, out.deep_view());
            }
            Some(out)
        },
        DocValue::Int(_) => None,
        DocValue::Dict(_) => None,
        DocValue::Bool(_) => None,
        DocValue::Null => None,
        DocValue::Other => None,
    }
}

/// If every element of `vs` is a byte string and `segs` collects those byte
/// strings in order, then `vs` decodes to exactly `segs`.
proof fn lemma_segs_of_list_all(vs: Seq<SpecValue>, segs: Seq<Seq<u8>>)
    requires
        segs.len() == vs.len(),
        forall|j: int| 0 <= j < vs.len() ==> vs[j] is Bytes,
        forall|j: int| 0 <= j < vs.len() ==> segs[j] == vs[j]->Bytes_0,
    ensures
        segs_of_list(vs) == Some(segs),
    decreases vs,
{
    if vs.len() == 0 {
        assert(segs =~= Seq::<Seq<u8>>::empty());
    } else {
        let rest = vs.subrange(1, vs.len() as int);
        lemma_segs_of_list_all(rest, segs.subrange(1, segs.len() as int));
        assert(segs =~= seq![vs[0]->Bytes_0] + segs.subrange(1, segs.len() as int));
    }
}

/// If some element of `vs` is not a byte string, `vs` does not decode.
proof fn lemma_segs_of_list_bad(vs: Seq<SpecValue>, i: int)
    requires
        0 <= i < vs.len(),
        !(vs[i] is Bytes),
    ensures
        segs_of_list(vs) is None,
    decreases vs,
{
    if vs.len() > 0 && vs[0] is Bytes {
        lemma_segs_of_list_bad(vs.subrange(1, vs.len() as int), i - 1);
    }
}

/// Decodes every element of a list with `f`; the first failure wins and the
/// whole decode fails with it.
pub open spec fn decode_each<T>(
    vs: Seq<SpecValue>,
    f: spec_fn(SpecValue) -> Result<T, DecodeError>,
) -> Result<Seq<T>, DecodeError>
    decreases vs,
{
    if vs.len() == 0 {
        Ok(Seq::empty())
    } else {
        match f(vs[0]) {
            Ok(t) => match decode_each(vs.subrange(1, vs.len() as int), f) {
                Ok(ts) => Ok(seq![t] + ts),
                Err(e) => Err(e),
            },
            Err(e) => Err(e),
        }
    }
}

pub proof fn lemma_decode_each_all<T>(
    vs: Seq<SpecValue>,
    f: spec_fn(SpecValue) -> Result<T, DecodeError>,
    ts: Seq<T>,
)
    requires
        ts.len() == vs.len(),
        forall|j: int| 0 <= j < vs.len() ==> f(vs[j]) == Ok::<T, DecodeError>(ts[j]),
    ensures
        decode_each(vs, f) == Ok::<Seq<T>, DecodeError>(ts),
    decreases vs,
{
    if vs.len() == 0 {
        assert(ts =~= Seq::<T>::empty());
    } else {
        lemma_decode_each_all(
            vs.subrange(1, vs.len() as int),
            f,
            ts.subrange(1, ts.len() as int),
        );
        assert(ts =~= seq![ts[0]] + ts.subrange(1, ts.len() as int));
    }
}

pub proof fn lemma_decode_each_bad<T>(
    vs: Seq<SpecValue>,
    f: spec_fn(SpecValue) -> Result<T, DecodeError>,
    i: int,
)
    requires
        0 <= i < vs.len(),
        forall|j: int| 0 <= j < i ==> f(vs[j]) is Ok,
        f(vs[i]) is Err,
    ensures
        decode_each(vs, f) == Err::<Seq<T>, DecodeError>(f(vs[i])->Err_0),
    decreases vs,
{
    if i > 0 {
        lemma_decode_each_bad(vs.subrange(1, vs.len() as int), f, i - 1);
    }
}

pub proof fn lemma_decode_each_ok_len<T>(
    vs: Seq<SpecValue>,
    f: spec_fn(SpecValue) -> Result<T, DecodeError>,
)
    ensures
        decode_each(vs, f) matches Ok(ts) ==> ts.len() == vs.len(),
    decreases vs,
{
    if vs.len() > 0 {
        lemma_decode_each_ok_len(vs.subrange(1, vs.len() as int), f);
    }
}

/// Law: a path field written as one byte string and the same path written as
/// the one-element list of that byte string decode to the same segments.
pub proof fn lemma_string_or_list_path(b: Seq<u8>)
    ensures
        segs_of(SpecValue::Bytes(b)) == Some(seq![b]),
        segs_of(SpecValue::List(seq![SpecValue::Bytes(b)])) == Some(seq![b]),
{
    let vs: Seq<SpecValue> = seq![SpecValue::Bytes(b)];
    assert(vs.subrange(1, 1) =~= Seq::<SpecValue>::empty());
    assert(segs_of_list(Seq::<SpecValue>::empty()) == Some(Seq::<Seq<u8>>::empty()));
    assert(segs_of_list(vs.subrange(1, 1)) == Some(Seq::<Seq<u8>>::empty()));
    assert(segs_of_list(vs) == Some(seq![b] + Seq::<Seq<u8>>::empty()));
    assert(seq![b] + Seq::<Seq<u8>>::empty() =~= seq![b]);
}

} // verus!
