//! The wire codec for service instances: a canonical JSON object
//! `{"name":...,"key":...,"endpoint":...}` with string fields, where `"` and
//! `\` inside a field are backslash-escaped. `decode` accepts exactly the
//! strings that `encode` produces and rejects everything else, so corrupt
//! store values are dropped by the discovery loop.
//!
//! Those two are the only escapes: the codec round-trips every field,
//! control characters included, but a field holding a control character is
//! written raw, which strict JSON would escape. Names, keys and endpoints
//! never carry such characters.

use vstd::prelude::*;

use crate::common::{ServiceInstance, ServiceInstanceView};
use crate::strutil::{chars_to_string, str_to_chars};

verus! {

/// The opening of the object up to the first field's value: `{"name":"`.
pub open spec fn json_open() -> Seq<char> {
    seq!['{', '"', 'n', 'a', 'm', 'e', '"', ':', '"']
}

/// The separator between the first and second field: `,"key":"`.
pub open spec fn json_mid_key() -> Seq<char> {
    seq![',', '"', 'k', 'e', 'y', '"', ':', '"']
}

/// The separator between the second and third field: `,"endpoint":"`.
pub open spec fn json_mid_endpoint() -> Seq<char> {
    seq![',', '"', 'e', 'n', 'd', 'p', 'o', 'i', 'n', 't', '"', ':', '"']
}

/// How one character appears inside a JSON string: quotes and backslashes
/// gain a backslash, everything else stands as itself.
pub open spec fn esc_char(c: char) -> Seq<char> {
    if c == '"' || c == '\\' {
        seq!['\\', c]
    } else {
        seq![c]
    }
}

/// The escaped body of a JSON string.
pub open spec fn esc(s: Seq<char>) -> Seq<char>
    decreases s.len(),
{
    if s.len() == 0 {
        Seq::<char>::empty()
    } else {
        esc_char(s[0]) + esc(s.skip(1))
    }
}

/// One encoded string field, closing quote included.
pub open spec fn enc_str(s: Seq<char>) -> Seq<char> {
    esc(s) + seq!['"']
}

/// The canonical encoding of an instance.
pub open spec fn spec_encode(v: ServiceInstanceView) -> Seq<char> {
    json_open() + enc_str(v.name) + json_mid_key() + enc_str(v.key) + json_mid_endpoint() + enc_str(
        v.endpoint,
    ) + seq!['}']
}

/// Escaping distributes over concatenation.
pub proof fn lemma_esc_append(a: Seq<char>, b: Seq<char>)
    ensures
        esc(a + b) == esc(a) + esc(b),
    decreases a.len(),
{
    if a.len() == 0 {
        assert(a + b =~= b);
        assert(esc(a) + esc(b) =~= esc(b));
    } else {
        lemma_esc_append(a.skip(1), b);
        assert((a + b).skip(1) =~= a.skip(1) + b);
        assert(esc(a + b) =~= esc(a) + esc(b));
    }
}

/// Appends the escaped body of `s` to `out`.
fn push_escaped(out: &mut Vec<char>, s: &Vec<char>)
    ensures
        final(out)@ == old(out)@ + esc(s@),
{
    let mut i: usize = 0;
    proof {
        assert(s@.subrange(0, 0) =~= Seq::<char>::empty());
        assert(out@ =~= out@ + esc(s@.subrange(0, 0)));
    }
    while i < s.len()
        invariant
            i <= s@.len(),
            out@ == old(out)@ + esc(s@.subrange(0, i as int)),
        decreases s@.len() - i,
    {
        let ghost pre = s@.subrange(0, i as int);
        let c = s[i];
        if c == '"' || c == '\\' {
            out.push('\\');
            out.push(c);
        } else {
            out.push(c);
        }
        proof {
            assert(s@.subrange(0, i as int + 1) =~= pre + seq![s@[i as int]]);
            lemma_esc_append(pre, seq![s@[i as int]]);
            assert(seq![s@[i as int]].skip(1) =~= Seq::<char>::empty());
            assert(esc(Seq::<char>::empty()) =~= Seq::<char>::empty());
            assert(esc(seq![s@[i as int]]) == esc_char(seq![s@[i as int]][0]) + esc(
                seq![s@[i as int]].skip(1),
            ));
            assert(esc_char(s@[i as int]) + Seq::<char>::empty() =~= esc_char(s@[i as int]));
            assert(esc(seq![s@[i as int]]) =~= esc_char(s@[i as int]));
            assert(out@ =~= old(out)@ + esc(s@.subrange(0, i as int + 1)));
        }
        i = i + 1;
    }
    proof {
        assert(s@.subrange(0, s@.len() as int) =~= s@);
    }
}

/// Encodes an instance as its canonical JSON object.
pub fn encode_instance(inst: &ServiceInstance) -> (r: String)
    ensures
        r@ == spec_encode(inst@),
{
    let mut out: Vec<char> = Vec::new();

    let mut open = str_to_chars("{\"name\":\"");
    proof {
        reveal_strlit("{\"name\":\"");
        assert(open@ =~= json_open());
    }
    out.append(&mut open);

    let name_chars = str_to_chars(inst.name.as_str());
    push_escaped(&mut out, &name_chars);

    let mut mid_key = str_to_chars("\",\"key\":\"");
    proof {
        reveal_strlit("\",\"key\":\"");
        assert(mid_key@ =~= seq!['"'] + json_mid_key());
    }
    out.append(&mut mid_key);

    let key_chars = str_to_chars(inst.key.as_str());
    push_escaped(&mut out, &key_chars);

    let mut mid_ep = str_to_chars("\",\"endpoint\":\"");
    proof {
        reveal_strlit("\",\"endpoint\":\"");
        assert(mid_ep@ =~= seq!['"'] + json_mid_endpoint());
    }
    out.append(&mut mid_ep);

    let ep_chars = str_to_chars(inst.endpoint.as_str());
    push_escaped(&mut out, &ep_chars);

    let mut close = str_to_chars("\"}");
    proof {
        reveal_strlit("\"}");
        assert(close@ =~= seq!['"', '}']);
    }
    out.append(&mut close);

    proof {
        assert(out@ =~= spec_encode(inst@));
    }
    chars_to_string(&out)
}

/// Does `lit` stand at position `i` of `s`?
pub open spec fn match_at(s: Seq<char>, i: int, lit: Seq<char>) -> bool {
    &&& 0 <= i
    &&& i + lit.len() <= s.len()
    &&& s.subrange(i, i + lit.len()) == lit
}

/// Parses a JSON string body starting at `i`, just past the opening quote:
/// the decoded characters, and the position just past the closing quote.
/// `None` on an unterminated string or an escape this codec never writes.
pub open spec fn parse_str(s: Seq<char>, i: int) -> Option<(Seq<char>, int)>
    decreases s.len() - i,
        when 0 <= i <= s.len()
{
    if i >= s.len() {
        None
    } else if s[i] == '"' {
        Some((Seq::<char>::empty(), i + 1))
    } else if s[i] == '\\' {
        if i + 1 < s.len() && (s[i + 1] == '"' || s[i + 1] == '\\') {
            match parse_str(s, i + 2) {
                Some(r) => Some((seq![s[i + 1]] + r.0, r.1)),
                None => None,
            }
        } else {
            None
        }
    } else {
        match parse_str(s, i + 1) {
            Some(r) => Some((seq![s[i]] + r.0, r.1)),
            None => None,
        }
    }
}

/// What `decode` returns: the instance, when the whole of `s` is the
/// canonical object, and nothing otherwise.
pub open spec fn spec_decode(s: Seq<char>) -> Option<ServiceInstanceView> {
    if !match_at(s, 0, json_open()) {
        None
    } else {
        match parse_str(s, json_open().len() as int) {
            None => None,
            Some((name, e1)) => if !match_at(s, e1, json_mid_key()) {
                None
            } else {
                match parse_str(s, e1 + json_mid_key().len()) {
                    None => None,
                    Some((key, e2)) => if !match_at(s, e2, json_mid_endpoint()) {
                        None
                    } else {
                        match parse_str(s, e2 + json_mid_endpoint().len()) {
                            None => None,
                            Some((endpoint, e3)) => if e3 + 1 == s.len() && s[e3] == '}' {
                                Some(ServiceInstanceView { name, key, endpoint })
                            } else {
                                None
                            },
                        }
                    },
                }
            },
        }
    }
}

fn expect_lit(s: &Vec<char>, i: usize, lit: &Vec<char>) -> (r: bool)
    requires
        i <= s@.len(),
    ensures
        r == match_at(s@, i as int, lit@),
{
    let n: usize = s.len();
    if n - i < lit.len() {
        return false;
    }
    let mut j: usize = 0;
    while j < lit.len()
        invariant
            j <= lit@.len(),
            i + lit@.len() <= n,
            n == s@.len(),
            forall|k: int| 0 <= k < j ==> s@[i + k] == lit@[k],
        decreases lit@.len() - j,
    {
        if s[i + j] != lit[j] {
            assert(s@.subrange(i as int, i + lit@.len()) != lit@) by {
                assert(s@.subrange(i as int, i + lit@.len())[j as int] != lit@[j as int]);
            }
            return false;
        }
        j = j + 1;
    }
    proof {
        assert(s@.subrange(i as int, i + lit@.len()) =~= lit@);
    }
    true
}

fn parse_string_at(s: &Vec<char>, start: usize) -> (r: Option<(Vec<char>, usize)>)
    requires
        start <= s@.len(),
    ensures
        match r {
            Some(p) => parse_str(s@, start as int) == Some((p.0@, p.1 as int)) && start < p.1
                <= s@.len(),
            None => parse_str(s@, start as int) is None,
        },
{
    let mut acc: Vec<char> = Vec::new();
    let mut i: usize = start;
    loop
        invariant
            start <= i <= s@.len(),
            parse_str(s@, start as int) == (match parse_str(s@, i as int) {
                Some(q) => Some((acc@ + q.0, q.1)),
                None => None::<(Seq<char>, int)>,
            }),
        decreases s@.len() - i,
    {
        if i == s.len() {
            return None;
        }
        let c = s[i];
        if c == '"' {
            proof {
                assert(acc@ + Seq::<char>::empty() =~= acc@);
            }
            return Some((acc, i + 1));
        } else if c == '\\' {
            if i + 1 == s.len() {
                return None;
            }
            let c2 = s[i + 1];
            if c2 == '"' || c2 == '\\' {
                let ghost acc0 = acc@;
                acc.push(c2);
                proof {
                    if parse_str(s@, i as int + 2) is Some {
                        let q = parse_str(s@, i as int + 2).unwrap();
                        assert(acc0 + (seq![s@[i as int + 1]] + q.0) =~= acc0.push(
                            s@[i as int + 1],
                        ) + q.0);
                    }
                }
                i = i + 2;
            } else {
                return None;
            }
        } else {
            let ghost acc0 = acc@;
            acc.push(c);
            proof {
                if parse_str(s@, i as int + 1) is Some {
                    let q = parse_str(s@, i as int + 1).unwrap();
                    assert(acc0 + (seq![s@[i as int]] + q.0) =~= acc0.push(s@[i as int]) + q.0);
                }
            }
            i = i + 1;
        }
    }
}

fn lit_open_chars() -> (r: Vec<char>)
    ensures
        r@ == json_open(),
{
    let r = str_to_chars("{\"name\":\"");
    proof {
        reveal_strlit("{\"name\":\"");
        assert(r@ =~= json_open());
    }
    r
}

fn lit_mid_key_chars() -> (r: Vec<char>)
    ensures
        r@ == json_mid_key(),
{
    let r = str_to_chars(",\"key\":\"");
    proof {
        reveal_strlit(",\"key\":\"");
        assert(r@ =~= json_mid_key());
    }
    r
}

fn lit_mid_endpoint_chars() -> (r: Vec<char>)
    ensures
        r@ == json_mid_endpoint(),
{
    let r = str_to_chars(",\"endpoint\":\"");
    proof {
        reveal_strlit(",\"endpoint\":\"");
        assert(r@ =~= json_mid_endpoint());
    }
    r
}

/// Decodes the canonical JSON object back into an instance; anything else,
/// `"not-json"` or a truncated or reordered object, yields `None`.
pub fn decode_instance(s: &str) -> (r: Option<ServiceInstance>)
    ensures
        (r is Some) == (spec_decode(s@) is Some),
        r matches Some(inst) ==> Some(inst@) == spec_decode(s@),
{
    let chars = str_to_chars(s);
    let n: usize = chars.len();
    proof {
        assert(n == chars@.len());
    }
    let open = lit_open_chars();
    if !expect_lit(&chars, 0, &open) {
        return None;
    }
    let name_parse = parse_string_at(&chars, open.len());
    let (name_chars, e1) = match name_parse {
        Some(p) => p,
        None => {
            return None;
        },
    };
    let mid_key = lit_mid_key_chars();
    if !expect_lit(&chars, e1, &mid_key) {
        return None;
    }
    let key_parse = parse_string_at(&chars, e1 + mid_key.len());
    let (key_chars, e2) = match key_parse {
        Some(p) => p,
        None => {
            return None;
        },
    };
    let mid_ep = lit_mid_endpoint_chars();
    if !expect_lit(&chars, e2, &mid_ep) {
        return None;
    }
    let ep_parse = parse_string_at(&chars, e2 + mid_ep.len());
    let (ep_chars, e3) = match ep_parse {
        Some(p) => p,
        None => {
            return None;
        },
    };
    if e3 < chars.len() && e3 + 1 == chars.len() && chars[e3] == '}' {
        Some(
            ServiceInstance {
                name: chars_to_string(&name_chars),
                key: chars_to_string(&key_chars),
                endpoint: chars_to_string(&ep_chars),
            },
        )
    } else {
        None
    }
}

/// A literal standing between `pre` and `post` matches at `pre`'s end.
proof fn lemma_lit_at(s: Seq<char>, pre: Seq<char>, lit: Seq<char>, post: Seq<char>)
    requires
        s == pre + lit + post,
    ensures
        match_at(s, pre.len() as int, lit),
        s.len() == pre.len() + lit.len() + post.len(),
        forall|k: int| 0 <= k < lit.len() ==> s[pre.len() + k] == lit[k],
{
    assert(s.subrange(pre.len() as int, pre.len() + lit.len() as int) =~= lit);
    assert forall|k: int| 0 <= k < lit.len() implies s[pre.len() + k] == lit[k] by {
        assert(s.subrange(pre.len() as int, pre.len() + lit.len() as int)[k] == lit[k]);
    }
}

/// A parse of an encoded string field recovers the original characters and
/// stops just past the field's closing quote.
proof fn lemma_parse_esc(s: Seq<char>, pre: Seq<char>, x: Seq<char>, post: Seq<char>)
    requires
        s == pre + enc_str(x) + post,
    ensures
        parse_str(s, pre.len() as int) == Some((x, pre.len() as int + esc(x).len() + 1)),
    decreases x.len(),
{
    let i = pre.len() as int;
    assert(s =~= pre + esc(x) + seq!['"'] + post);
    lemma_lit_at(s, pre + esc(x), seq!['"'], post);
    if x.len() == 0 {
        assert(esc(x).len() == 0);
        assert(pre + esc(x) =~= pre);
        assert(s[i] == '"');
    } else {
        let c = x[0];
        let x1 = x.skip(1);
        assert(esc(x) == esc_char(c) + esc(x1));
        if c == '"' || c == '\\' {
            assert(esc_char(c) =~= seq!['\\', c]);
            assert(s =~= pre + seq!['\\', c] + (esc(x1) + seq!['"'] + post));
            lemma_lit_at(s, pre, seq!['\\', c], esc(x1) + seq!['"'] + post);
            assert(s[i] == '\\');
            assert(s[i + 1] == c);
            assert(s =~= (pre + seq!['\\', c]) + enc_str(x1) + post);
            lemma_parse_esc(s, pre + seq!['\\', c], x1, post);
            assert(seq![c] + x1 =~= x);
        } else {
            assert(esc_char(c) =~= seq![c]);
            assert(s =~= pre + seq![c] + (esc(x1) + seq!['"'] + post));
            lemma_lit_at(s, pre, seq![c], esc(x1) + seq!['"'] + post);
            assert(s[i] == c);
            assert(s =~= (pre + seq![c]) + enc_str(x1) + post);
            lemma_parse_esc(s, pre + seq![c], x1, post);
            assert(seq![x[0]] + x1 =~= x);
        }
    }
}

/// Re-associations of a seven-piece concatenation, one for each piece.
proof fn lemma_seven_parts(
    s: Seq<char>,
    p1: Seq<char>,
    p2: Seq<char>,
    p3: Seq<char>,
    p4: Seq<char>,
    p5: Seq<char>,
    p6: Seq<char>,
    p7: Seq<char>,
)
    requires
        s == p1 + p2 + p3 + p4 + p5 + p6 + p7,
    ensures
        s == Seq::<char>::empty() + p1 + (p2 + p3 + p4 + p5 + p6 + p7),
        s == p1 + p2 + (p3 + p4 + p5 + p6 + p7),
        s == (p1 + p2) + p3 + (p4 + p5 + p6 + p7),
        s == (p1 + p2 + p3) + p4 + (p5 + p6 + p7),
        s == (p1 + p2 + p3 + p4) + p5 + (p6 + p7),
        s == (p1 + p2 + p3 + p4 + p5) + p6 + p7,
        s == (p1 + p2 + p3 + p4 + p5 + p6) + p7 + Seq::<char>::empty(),
{
    assert(s =~= Seq::<char>::empty() + p1 + (p2 + p3 + p4 + p5 + p6 + p7));
    assert(s =~= p1 + p2 + (p3 + p4 + p5 + p6 + p7));
    assert(s =~= (p1 + p2) + p3 + (p4 + p5 + p6 + p7));
    assert(s =~= (p1 + p2 + p3) + p4 + (p5 + p6 + p7));
    assert(s =~= (p1 + p2 + p3 + p4) + p5 + (p6 + p7));
    assert(s =~= (p1 + p2 + p3 + p4 + p5) + p6 + p7);
    assert(s =~= (p1 + p2 + p3 + p4 + p5 + p6) + p7 + Seq::<char>::empty());
}

/// The codec's round-trip law: decoding an encoded instance gives the
/// instance back, whatever its fields hold.
#[verifier::rlimit(100)]
pub proof fn lemma_decode_encode(v: ServiceInstanceView)
    ensures
        spec_decode(spec_encode(v)) == Some(v),
{
    let s = spec_encode(v);
    let o = json_open();
    let mk = json_mid_key();
    let me = json_mid_endpoint();
    let rb = seq!['}'];
    let f1 = enc_str(v.name);
    let f2 = enc_str(v.key);
    let f3 = enc_str(v.endpoint);
    let i0 = o.len() as int;
    let e1 = i0 + esc(v.name).len() + 1;
    let i1 = e1 + mk.len();
    let e2 = i1 + esc(v.key).len() + 1;
    let i2 = e2 + me.len();
    let e3 = i2 + esc(v.endpoint).len() + 1;

    lemma_seven_parts(s, o, f1, mk, f2, me, f3, rb);

    lemma_lit_at(s, Seq::<char>::empty(), o, f1 + mk + f2 + me + f3 + rb);
    lemma_parse_esc(s, o, v.name, mk + f2 + me + f3 + rb);
    lemma_lit_at(s, o + f1, mk, f2 + me + f3 + rb);
    assert((o + f1).len() == e1);
    lemma_parse_esc(s, o + f1 + mk, v.key, me + f3 + rb);
    assert((o + f1 + mk).len() == i1);
    lemma_lit_at(s, o + f1 + mk + f2, me, f3 + rb);
    assert((o + f1 + mk + f2).len() == e2);
    lemma_parse_esc(s, o + f1 + mk + f2 + me, v.endpoint, rb);
    assert((o + f1 + mk + f2 + me).len() == i2);
    lemma_lit_at(s, o + f1 + mk + f2 + me + f3, rb, Seq::<char>::empty());
    assert((o + f1 + mk + f2 + me + f3).len() == e3);
    assert(s[e3] == '}');
    assert(s.len() == e3 + 1);

    assert(spec_decode(s) == Some(
        ServiceInstanceView { name: v.name, key: v.key, endpoint: v.endpoint },
    ));
    assert(ServiceInstanceView { name: v.name, key: v.key, endpoint: v.endpoint } == v);
}

} // verus!
