//! Canonical binary store keys.
//!
//! A logical entity path together with its composite key fields is encoded
//! into a single byte string. The encoding preserves order: comparing two
//! encoded keys byte for byte agrees with comparing the underlying fields
//! field by field. Each field is framed as `0x01`, the field bytes with every
//! zero byte escaped as `0x00 0xff`, then a `0x00` terminator; the logical
//! path is framed the same way in front of the fields.

use vstd::prelude::*;

verus! {

use vstd::utf8::encode_utf8;

/// A resolved store key: the entity's logical path and the composite key
/// fields that identify one record beneath that path.
#[derive(Clone, Debug, PartialEq, Eq)]
pub struct DataKey {
    pub path: String,
    pub fields: Vec<String>,
}

/// The mathematical content of a [`DataKey`].
#[verifier::ext_equal]
pub struct DataKeyView {
    pub path: Seq<char>,
    pub fields: Seq<Seq<char>>,
}

impl View for DataKey {
    type V = DataKeyView;

    open spec fn view(&self) -> DataKeyView {
        DataKeyView { path: self.path@, fields: self.fields.deep_view() }
    }
}

/// The composite key fields as byte strings.
pub open spec fn spec_key_fields(k: DataKeyView) -> Seq<Seq<u8>> {
    k.fields.map_values(|f: Seq<char>| encode_utf8(f))
}

/// The canonical store key bytes of a resolved key: the framed path followed
/// by the framed composite key fields.
pub open spec fn spec_key_bytes(k: DataKeyView) -> Seq<u8> {
    spec_encode_field(encode_utf8(k.path)) + spec_encode_fields(spec_key_fields(k))
}

/// Strict lexicographic order on byte strings.
pub open spec fn bytes_lt(a: Seq<u8>, b: Seq<u8>) -> bool
    decreases a.len(),
{
    if b.len() == 0 {
        false
    } else if a.len() == 0 {
        true
    } else if a[0] < b[0] {
        true
    } else if a[0] > b[0] {
        false
    } else {
        bytes_lt(a.drop_first(), b.drop_first())
    }
}

/// Strict field-wise order on composite keys given as byte strings: fields
/// are compared pairwise in `bytes_lt` order, and a strict prefix sorts first.
pub open spec fn fields_lt(xs: Seq<Seq<u8>>, ys: Seq<Seq<u8>>) -> bool
    decreases xs.len(),
{
    if ys.len() == 0 {
        false
    } else if xs.len() == 0 {
        true
    } else if bytes_lt(xs[0], ys[0]) {
        true
    } else if xs[0] != ys[0] {
        false
    } else {
        fields_lt(xs.drop_first(), ys.drop_first())
    }
}

/// Field bytes with every zero byte replaced by the pair `0x00 0xff`.
pub open spec fn escape_bytes(s: Seq<u8>) -> Seq<u8>
    decreases s.len(),
{
    if s.len() == 0 {
        Seq::empty()
    } else {
        (if s[0] == 0 {
            seq![0u8, 255u8]
        } else {
            seq![s[0]]
        }) + escape_bytes(s.drop_first())
    }
}

/// One framed field: a `0x01` marker, the escaped bytes, a `0x00` terminator.
pub open spec fn spec_encode_field(s: Seq<u8>) -> Seq<u8> {
    seq![1u8] + escape_bytes(s) + seq![0u8]
}

/// The framed fields, one after the other.
pub open spec fn spec_encode_fields(fs: Seq<Seq<u8>>) -> Seq<u8>
    decreases fs.len(),
{
    if fs.len() == 0 {
        Seq::empty()
    } else {
        spec_encode_field(fs[0]) + spec_encode_fields(fs.drop_first())
    }
}

proof fn lemma_bytes_lt_irrefl(a: Seq<u8>)
    ensures
        !bytes_lt(a, a),
    decreases a.len(),
{
    if a.len() > 0 {
        lemma_bytes_lt_irrefl(a.drop_first());
    }
}

proof fn lemma_bytes_lt_trichotomy(a: Seq<u8>, b: Seq<u8>)
    requires
        a != b,
    ensures
        bytes_lt(a, b) || bytes_lt(b, a),
    decreases a.len(),
{
    if a.len() == 0 && b.len() == 0 {
        assert(a =~= b);
    } else if a.len() > 0 && b.len() > 0 && a[0] == b[0] {
        let at = a.drop_first();
        let bt = b.drop_first();
        assert(at.len() == a.len() - 1);
        assert(bt.len() == b.len() - 1);
        if at == bt {
            assert forall|i: int| 0 <= i < a.len() implies a[i] == b[i] by {
                if i > 0 {
                    assert(a[i] == at[i - 1]);
                    assert(b[i] == bt[i - 1]);
                }
            }
            assert(a =~= b);
        } else {
            lemma_bytes_lt_trichotomy(at, bt);
        }
    }
}

/// After an equal prefix, lexicographic comparison reduces to the suffixes.
proof fn lemma_lex_prepend(p: Seq<u8>, x: Seq<u8>, y: Seq<u8>)
    ensures
        bytes_lt(p + x, p + y) <==> bytes_lt(x, y),
    decreases p.len(),
{
    if p.len() == 0 {
        assert(p + x =~= x);
        assert(p + y =~= y);
    } else {
        assert((p + x).drop_first() =~= p.drop_first() + x);
        assert((p + y).drop_first() =~= p.drop_first() + y);
        lemma_lex_prepend(p.drop_first(), x, y);
    }
}

/// A byte string that can follow a framed field: empty, or the `0x01` marker
/// of a further field. The escape byte `0xff` sorts above both, which is what
/// keeps the escaping order-preserving.
pub open spec fn low_head(x: Seq<u8>) -> bool {
    x.len() == 0 || x[0] == 1
}

proof fn lemma_encode_fields_low_head(fs: Seq<Seq<u8>>)
    ensures
        low_head(spec_encode_fields(fs)),
{
    if fs.len() > 0 {
        assert(spec_encode_fields(fs)[0] == spec_encode_field(fs[0])[0]);
    }
}

/// Core escape lemma: ordered field bytes stay ordered once escaped,
/// terminated, and followed by any further framed fields.
proof fn lemma_escaped_lt(a: Seq<u8>, b: Seq<u8>, x: Seq<u8>, y: Seq<u8>)
    requires
        bytes_lt(a, b),
        low_head(x),
        low_head(y),
    ensures
        bytes_lt(escape_bytes(a) + seq![0u8] + x, escape_bytes(b) + seq![0u8] + y),
    decreases a.len(),
{
    let ea = escape_bytes(a) + seq![0u8] + x;
    let eb = escape_bytes(b) + seq![0u8] + y;
    if a.len() == 0 {
        assert(ea =~= seq![0u8] + x);
        if b[0] == 0 {
            assert(eb =~= seq![0u8, 255u8] + (escape_bytes(b.drop_first()) + seq![0u8] + y));
            assert(ea[0] == 0 && eb[0] == 0);
            let ta = ea.drop_first();
            let tb = eb.drop_first();
            assert(ta =~= x);
            assert(tb[0] == 255);
            assert(bytes_lt(ta, tb));
        } else {
            assert(ea[0] == 0 && eb[0] == escape_bytes(b)[0]);
            assert(escape_bytes(b)[0] == b[0]);
            assert(bytes_lt(ea, eb));
        }
    } else {
        if a[0] == b[0] {
            let h = if a[0] == 0 {
                seq![0u8, 255u8]
            } else {
                seq![a[0]]
            };
            lemma_escaped_lt(a.drop_first(), b.drop_first(), x, y);
            assert(ea =~= h + (escape_bytes(a.drop_first()) + seq![0u8] + x));
            assert(eb =~= h + (escape_bytes(b.drop_first()) + seq![0u8] + y));
            lemma_lex_prepend(
                h,
                escape_bytes(a.drop_first()) + seq![0u8] + x,
                escape_bytes(b.drop_first()) + seq![0u8] + y,
            );
        } else if a[0] < b[0] {
            if a[0] == 0 {
                assert(ea =~= seq![0u8, 255u8] + (escape_bytes(a.drop_first()) + seq![0u8] + x));
                assert(ea[0] == 0);
                assert(eb[0] == escape_bytes(b)[0]);
                assert(escape_bytes(b)[0] == b[0]);
                assert(bytes_lt(ea, eb));
            } else {
                assert(ea[0] == escape_bytes(a)[0]);
                assert(escape_bytes(a)[0] == a[0]);
                assert(eb[0] == escape_bytes(b)[0]);
                assert(escape_bytes(b)[0] == b[0]);
                assert(bytes_lt(ea, eb));
            }
        }
    }
}

/// A smaller field, once framed, sorts below a larger framed field whatever
/// framed fields follow each of them.
proof fn lemma_encode_field_lt(a: Seq<u8>, b: Seq<u8>, x: Seq<u8>, y: Seq<u8>)
    requires
        bytes_lt(a, b),
        low_head(x),
        low_head(y),
    ensures
        bytes_lt(spec_encode_field(a) + x, spec_encode_field(b) + y),
{
    lemma_escaped_lt(a, b, x, y);
    assert(spec_encode_field(a) + x =~= seq![1u8] + (escape_bytes(a) + seq![0u8] + x));
    assert(spec_encode_field(b) + y =~= seq![1u8] + (escape_bytes(b) + seq![0u8] + y));
    lemma_lex_prepend(seq![1u8], escape_bytes(a) + seq![0u8] + x, escape_bytes(b) + seq![0u8] + y);
}

/// Order preservation: field-wise order of composite keys agrees with
/// byte-wise order of their encodings.
pub proof fn lemma_fields_order(xs: Seq<Seq<u8>>, ys: Seq<Seq<u8>>)
    requires
        fields_lt(xs, ys),
    ensures
        bytes_lt(spec_encode_fields(xs), spec_encode_fields(ys)),
    decreases xs.len(),
{
    let ex = spec_encode_fields(xs);
    let ey = spec_encode_fields(ys);
    if xs.len() == 0 {
        assert(ey[0] == spec_encode_field(ys[0])[0]);
        assert(ey.len() > 0);
        assert(bytes_lt(ex, ey));
    } else if bytes_lt(xs[0], ys[0]) {
        lemma_encode_fields_low_head(xs.drop_first());
        lemma_encode_fields_low_head(ys.drop_first());
        lemma_encode_field_lt(
            xs[0],
            ys[0],
            spec_encode_fields(xs.drop_first()),
            spec_encode_fields(ys.drop_first()),
        );
    } else {
        lemma_fields_order(xs.drop_first(), ys.drop_first());
        lemma_lex_prepend(
            spec_encode_field(xs[0]),
            spec_encode_fields(xs.drop_first()),
            spec_encode_fields(ys.drop_first()),
        );
        assert(ex =~= spec_encode_field(xs[0]) + spec_encode_fields(xs.drop_first()));
        assert(ey =~= spec_encode_field(xs[0]) + spec_encode_fields(ys.drop_first()));
    }
}

proof fn lemma_fields_lt_trichotomy(xs: Seq<Seq<u8>>, ys: Seq<Seq<u8>>)
    requires
        xs != ys,
    ensures
        fields_lt(xs, ys) || fields_lt(ys, xs),
    decreases xs.len(),
{
    if xs.len() == 0 && ys.len() == 0 {
        assert(xs =~= ys);
    } else if xs.len() > 0 && ys.len() > 0 {
        if xs[0] == ys[0] {
            let xt = xs.drop_first();
            let yt = ys.drop_first();
            assert(xt.len() == xs.len() - 1);
            assert(yt.len() == ys.len() - 1);
            if xt == yt {
                assert forall|i: int| 0 <= i < xs.len() implies xs[i] == ys[i] by {
                    if i > 0 {
                        assert(xs[i] == xt[i - 1]);
                        assert(ys[i] == yt[i - 1]);
                    }
                }
                assert(xs =~= ys);
            } else {
                lemma_fields_lt_trichotomy(xt, yt);
                lemma_bytes_lt_irrefl(xs[0]);
            }
        } else {
            lemma_bytes_lt_trichotomy(xs[0], ys[0]);
        }
    }
}

proof fn lemma_escape_append(a: Seq<u8>, b: Seq<u8>)
    ensures
        escape_bytes(a + b) == escape_bytes(a) + escape_bytes(b),
    decreases a.len(),
{
    if a.len() == 0 {
        assert(a + b =~= b);
        assert(escape_bytes(a) + escape_bytes(b) =~= escape_bytes(b));
    } else {
        lemma_escape_append(a.drop_first(), b);
        assert((a + b).drop_first() =~= a.drop_first() + b);
        assert(escape_bytes(a + b) =~= escape_bytes(a) + escape_bytes(b));
    }
}

proof fn lemma_encode_fields_append(a: Seq<Seq<u8>>, b: Seq<Seq<u8>>)
    ensures
        spec_encode_fields(a + b) == spec_encode_fields(a) + spec_encode_fields(b),
    decreases a.len(),
{
    if a.len() == 0 {
        assert(a + b =~= b);
        assert(spec_encode_fields(a) + spec_encode_fields(b) =~= spec_encode_fields(b));
    } else {
        lemma_encode_fields_append(a.drop_first(), b);
        assert((a + b).drop_first() =~= a.drop_first() + b);
        assert((a + b)[0] == a[0]);
        assert(spec_encode_fields(a + b) =~= spec_encode_fields(a) + spec_encode_fields(b));
    }
}

proof fn lemma_escape_singleton(b: u8)
    ensures
        b == 0 ==> escape_bytes(seq![b]) == seq![0u8, 255u8],
        b != 0 ==> escape_bytes(seq![b]) == seq![b],
{
    assert(seq![b].drop_first() =~= Seq::<u8>::empty());
    assert(escape_bytes(Seq::<u8>::empty()) == Seq::<u8>::empty());
    if b == 0 {
        assert(escape_bytes(seq![b]) =~= seq![0u8, 255u8]);
    } else {
        assert(escape_bytes(seq![b]) =~= seq![b]);
    }
}

proof fn lemma_encode_fields_singleton(f: Seq<u8>)
    ensures
        spec_encode_fields(seq![f]) == spec_encode_field(f),
{
    assert(seq![f].drop_first() =~= Seq::<Seq<u8>>::empty());
    assert(spec_encode_fields(Seq::<Seq<u8>>::empty()) == Seq::<u8>::empty());
    assert(spec_encode_fields(seq![f]) =~= spec_encode_field(f));
}

/// Appends one framed field to `out`.
fn push_field(out: &mut Vec<u8>, field: &str)
    ensures
        final(out)@ == old(out)@ + spec_encode_field(encode_utf8(field@)),
{
    let bytes: &[u8] = field.as_bytes();
    out.push(1u8);
    let mut i: usize = 0;
    while i < bytes.len()
        invariant
            i <= bytes.len(),
            bytes@ == encode_utf8(field@),
            out@ == old(out)@ + seq![1u8] + escape_bytes(bytes@.take(i as int)),
        decreases bytes.len() - i,
    {
        let b = bytes[i];
        if b == 0 {
            out.push(0u8);
            out.push(255u8);
        } else {
            out.push(b);
        }
        proof {
            lemma_escape_append(bytes@.take(i as int), seq![bytes@[i as int]]);
            assert(bytes@.take(i + 1) =~= bytes@.take(i as int) + seq![bytes@[i as int]]);
            lemma_escape_singleton(bytes@[i as int]);
            assert(out@ == old(out)@ + seq![1u8] + escape_bytes(bytes@.take(i + 1)));
        }
        i = i + 1;
    }
    out.push(0u8);
    proof {
        assert(bytes@.take(bytes@.len() as int) =~= bytes@);
        assert(final(out)@ =~= old(out)@ + spec_encode_field(encode_utf8(field@)));
    }
}

/// Copies a string, preserving its characters.
pub fn clone_string(s: &String) -> (r: String)
    ensures
        r@ == s@,
{
    s.clone()
}

impl DataKey {
    /// Copies this key, preserving path and fields.
    pub fn duplicate(&self) -> (r: DataKey)
        ensures
            r@ == self@,
    {
        let mut fields: Vec<String> = Vec::new();
        let n = self.fields.len();
        let mut i: usize = 0;
        while i < n
            invariant
                i <= n,
                n == self.fields@.len(),
                fields.deep_view() == self.fields.deep_view().take(i as int),
            decreases n - i,
        {
            let ghost pre_at = fields@;
            let ghost pre_dv = fields.deep_view();
            proof {
                assert(pre_dv.len() == pre_at.len());
                assert(pre_at.len() == i);
            }
            fields.push(clone_string(&self.fields[i]));
            proof {
                assert(self.fields.deep_view()[i as int] == self.fields@[i as int]@);
                assert forall|k: int|
                    0 <= k < fields@.len() implies fields.deep_view()[k]
                    == self.fields.deep_view().take(i + 1)[k] by {
                    assert(fields.deep_view()[k] == fields@[k].deep_view());
                    if k < i {
                        assert(fields@[k] == pre_at[k]);
                        assert(pre_dv[k] == pre_at[k].deep_view());
                        assert(pre_dv[k] == self.fields.deep_view().take(i as int)[k]);
                    } else {
                        assert(fields@[k]@ == self.fields@[i as int]@);
                    }
                }
                assert(fields.deep_view() =~= self.fields.deep_view().take(i + 1));
            }
            i = i + 1;
        }
        proof {
            assert(self.fields.deep_view().take(n as int) =~= self.fields.deep_view());
        }
        let r = DataKey { path: clone_string(&self.path), fields };
        proof {
            assert(r@.path == self@.path);
            assert(r@.fields == self@.fields);
        }
        r
    }

    /// Builds the resolved key for a logical path and its composite key
    /// fields.
    pub fn new(path: String, fields: Vec<String>) -> (r: DataKey)
        ensures
            r@.path == path@,
            r@.fields == fields.deep_view(),
    {
        DataKey { path, fields }
    }

    /// The canonical, order-preserving binary form of this key.
    pub fn to_bytes(&self) -> (r: Vec<u8>)
        ensures
            r@ == spec_key_bytes(self@),
    {
        let mut out: Vec<u8> = Vec::new();
        push_field(&mut out, self.path.as_str());
        let ghost fbs = spec_key_fields(self@);
        let mut j: usize = 0;
        while j < self.fields.len()
            invariant
                j <= self.fields.len(),
                fbs == spec_key_fields(self@),
                fbs.len() == self.fields.len(),
                out@ == spec_encode_field(encode_utf8(self.path@)) + spec_encode_fields(
                    fbs.take(j as int),
                ),
            decreases self.fields.len() - j,
        {
            push_field(&mut out, self.fields[j].as_str());
            proof {
                assert(self.fields[j as int]@ == self.fields.deep_view()[j as int]);
                lemma_encode_fields_append(fbs.take(j as int), seq![fbs[j as int]]);
                assert(fbs.take(j + 1) =~= fbs.take(j as int) + seq![fbs[j as int]]);
                lemma_encode_fields_singleton(fbs[j as int]);
                assert(out@ == spec_encode_field(encode_utf8(self.path@)) + spec_encode_fields(
                    fbs.take(j + 1),
                ));
            }
            j = j + 1;
        }
        proof {
            assert(fbs.take(fbs.len() as int) =~= fbs);
        }
        out
    }
}

/// Order preservation lifted to whole keys: under one logical path, the
/// field-wise order of two composite keys agrees with the byte-wise order of
/// the resolved store keys.
pub proof fn lemma_key_order(k1: DataKeyView, k2: DataKeyView)
    requires
        k1.path == k2.path,
        fields_lt(spec_key_fields(k1), spec_key_fields(k2)),
    ensures
        bytes_lt(spec_key_bytes(k1), spec_key_bytes(k2)),
{
    lemma_fields_order(spec_key_fields(k1), spec_key_fields(k2));
    lemma_lex_prepend(
        spec_encode_field(encode_utf8(k1.path)),
        spec_encode_fields(spec_key_fields(k1)),
        spec_encode_fields(spec_key_fields(k2)),
    );
}

/// Injectivity lifted to whole keys: a store key determines the logical path
/// and every composite key field.
pub proof fn lemma_key_inject(k1: DataKeyView, k2: DataKeyView)
    requires
        spec_key_bytes(k1) == spec_key_bytes(k2),
    ensures
        k1.path == k2.path,
        k1.fields == k2.fields,
{
    let c1 = seq![encode_utf8(k1.path)] + spec_key_fields(k1);
    let c2 = seq![encode_utf8(k2.path)] + spec_key_fields(k2);
    assert(c1.drop_first() =~= spec_key_fields(k1));
    assert(c2.drop_first() =~= spec_key_fields(k2));
    assert(spec_encode_fields(c1) =~= spec_key_bytes(k1));
    assert(spec_encode_fields(c2) =~= spec_key_bytes(k2));
    lemma_fields_inject(c1, c2);
    assert(encode_utf8(k1.path) == c1[0]);
    assert(encode_utf8(k2.path) == c2[0]);
    vstd::utf8::encode_utf8_decode_utf8(k1.path);
    vstd::utf8::encode_utf8_decode_utf8(k2.path);
    assert forall|i: int| 0 <= i < k1.fields.len() implies k1.fields[i] == k2.fields[i] by {
        assert(spec_key_fields(k1)[i] == encode_utf8(k1.fields[i]));
        assert(spec_key_fields(k2)[i] == encode_utf8(k2.fields[i]));
        vstd::utf8::encode_utf8_decode_utf8(k1.fields[i]);
        vstd::utf8::encode_utf8_decode_utf8(k2.fields[i]);
    }
    assert(k1.fields.len() == spec_key_fields(k1).len());
    assert(k2.fields.len() == spec_key_fields(k2).len());
    assert(k1.fields =~= k2.fields);
}

/// Injectivity: two composite keys with the same encoding are the same key.
pub proof fn lemma_fields_inject(xs: Seq<Seq<u8>>, ys: Seq<Seq<u8>>)
    requires
        spec_encode_fields(xs) == spec_encode_fields(ys),
    ensures
        xs == ys,
{
    if xs != ys {
        lemma_fields_lt_trichotomy(xs, ys);
        if fields_lt(xs, ys) {
            lemma_fields_order(xs, ys);
        } else {
            lemma_fields_order(ys, xs);
        }
        lemma_bytes_lt_irrefl(spec_encode_fields(xs));
    }
}

} // verus!
