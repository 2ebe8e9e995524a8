//! Reading a JSON string back: the quoted and escaped form of a string
//! determines the string and where it ends.

use vstd::prelude::*;
use crate::config::opt_view;
use crate::report::{
    annotations_json, escape_char, escape_str, hex_char, json_string_of, member_text, vendor_text,
    Annotations,
};

verus! {

pub(crate) proof fn lemma_hex_char_injective(x: nat, y: nat)
    requires
        x < 16,
        y < 16,
        hex_char(x) == hex_char(y),
    ensures
        x == y,
{
}

proof fn lemma_escape_char_prefix(c: char, d: char, r1: Seq<char>, r2: Seq<char>)
    requires
        escape_char(c) + r1 == escape_char(d) + r2,
    ensures
        c == d,
        r1 == r2,
{
    let e1 = escape_char(c);
    let e2 = escape_char(d);
    let t1 = e1 + r1;
    let t2 = e2 + r2;
    assert(t1[0] == e1[0]);
    assert(t2[0] == e2[0]);
    if e1.len() == 1 {
        assert(e2.len() == 1);
        assert(c == d);
    } else {
        assert(e2.len() >= 2);
        assert(t1[1] == e1[1]);
        assert(t2[1] == e2[1]);
        if e1[1] == 'u' {
            assert(e2[1] == 'u');
            assert(t1[4] == e1[4] && t2[4] == e2[4]);
            assert(t1[5] == e1[5] && t2[5] == e2[5]);
            lemma_hex_char_injective((c as u32 / 16) as nat, (d as u32 / 16) as nat);
            lemma_hex_char_injective((c as u32 % 16) as nat, (d as u32 % 16) as nat);
            assert(c as u32 == d as u32);
        }
        assert(c == d);
    }
    assert(r1 =~= t1.skip(e1.len() as int));
    assert(r2 =~= t2.skip(e2.len() as int));
}

proof fn lemma_escape_str_closed(a: Seq<char>, b: Seq<char>, x: Seq<char>, y: Seq<char>)
    requires
        escape_str(a) + (seq!['"'] + x) == escape_str(b) + (seq!['"'] + y),
    ensures
        a == b,
        x == y,
    decreases a.len(),
{
    let ta = escape_str(a) + (seq!['"'] + x);
    let tb = escape_str(b) + (seq!['"'] + y);
    if a.len() == 0 {
        assert(escape_str(a) =~= Seq::<char>::empty());
        assert(ta =~= seq!['"'] + x);
        if b.len() > 0 {
            assert(tb =~= escape_char(b[0]) + (escape_str(b.drop_first()) + (seq!['"'] + y)));
            assert(tb[0] == escape_char(b[0])[0]);
        } else {
            assert(escape_str(b) =~= Seq::<char>::empty());
        }
        assert(b.len() == 0);
        assert(x =~= ta.skip(1));
        assert(y =~= tb.skip(1));
        assert(a =~= b);
    } else {
        assert(ta =~= escape_char(a[0]) + (escape_str(a.drop_first()) + (seq!['"'] + x)));
        if b.len() == 0 {
            assert(escape_str(b) =~= Seq::<char>::empty());
            assert(tb =~= seq!['"'] + y);
            assert(ta[0] == escape_char(a[0])[0]);
            assert(false);
        }
        assert(tb =~= escape_char(b[0]) + (escape_str(b.drop_first()) + (seq!['"'] + y)));
        lemma_escape_char_prefix(
            a[0],
            b[0],
            escape_str(a.drop_first()) + (seq!['"'] + x),
            escape_str(b.drop_first()) + (seq!['"'] + y),
        );
        lemma_escape_str_closed(a.drop_first(), b.drop_first(), x, y);
        assert(a =~= seq![a[0]] + a.drop_first());
        assert(b =~= seq![b[0]] + b.drop_first());
    }
}

/// A JSON string followed by any text determines both the string it holds
/// and that text: reading it back gives the string that was written.
pub proof fn lemma_json_string_prefix(a: Seq<char>, b: Seq<char>, x: Seq<char>, y: Seq<char>)
    requires
        json_string_of(a) + x == json_string_of(b) + y,
    ensures
        a == b,
        x == y,
{
    let ta = json_string_of(a) + x;
    let tb = json_string_of(b) + y;
    assert(ta.skip(1) =~= escape_str(a) + (seq!['"'] + x));
    assert(tb.skip(1) =~= escape_str(b) + (seq!['"'] + y));
    lemma_escape_str_closed(a, b, x, y);
}

proof fn lemma_member_prefix(
    first: bool,
    k1: Seq<char>,
    v1: Seq<char>,
    x: Seq<char>,
    k2: Seq<char>,
    v2: Seq<char>,
    y: Seq<char>,
)
    requires
        member_text(first, k1, v1) + x == member_text(first, k2, v2) + y,
    ensures
        k1 == k2,
        v1 == v2,
        x == y,
{
    reveal_strlit(",");
    reveal_strlit(":");
    let sep = if first { Seq::<char>::empty() } else { ","@ };
    let ta = member_text(first, k1, v1) + x;
    let tb = member_text(first, k2, v2) + y;
    assert(ta.skip(sep.len() as int) =~= json_string_of(k1) + (":"@ + json_string_of(v1) + x));
    assert(tb.skip(sep.len() as int) =~= json_string_of(k2) + (":"@ + json_string_of(v2) + y));
    lemma_json_string_prefix(k1, k2, ":"@ + json_string_of(v1) + x, ":"@ + json_string_of(v2) + y);
    assert((":"@ + json_string_of(v1) + x).skip(1) =~= json_string_of(v1) + x);
    assert((":"@ + json_string_of(v2) + y).skip(1) =~= json_string_of(v2) + y);
    lemma_json_string_prefix(v1, v2, x, y);
}

proof fn lemma_regroup(
    s0: Seq<char>,
    s1: Seq<char>,
    s2: Seq<char>,
    s3: Seq<char>,
    s4: Seq<char>,
    s5: Seq<char>,
    s6: Seq<char>,
    s7: Seq<char>,
    s8: Seq<char>,
    s9: Seq<char>,
    s10: Seq<char>,
)
    ensures
        s0 + s1 + s2 + s3 + s4 + s5 + s6 + s7 + s8 + s9 + s10 == s0 + (s1 + (s2 + (s3 + (s4 + (s5
            + (s6 + (s7 + (s8 + (s9 + s10))))))))),
{
    assert(s0 + s1 + s2 + s3 + s4 + s5 + s6 + s7 + s8 + s9 + s10 =~= s0 + (s1 + (s2 + (s3 + (s4
        + (s5 + (s6 + (s7 + (s8 + (s9 + s10))))))))));
}

spec fn tail7(a: Annotations) -> Seq<char> {
    member_text(false, "InstallTime"@, a.install_time@) + "}"@
}

spec fn tail6(a: Annotations) -> Seq<char> {
    member_text(false, "ReleaseChannel"@, a.release_channel@) + tail7(a)
}

spec fn tail5(a: Annotations) -> Seq<char> {
    member_text(false, "ServerURL"@, a.server_url@) + tail6(a)
}

spec fn tail4(a: Annotations) -> Seq<char> {
    member_text(false, "ProductID"@, a.product_id@) + tail5(a)
}

spec fn tail3(a: Annotations) -> Seq<char> {
    member_text(false, "BuildID"@, a.build_id@) + tail4(a)
}

spec fn tail2(a: Annotations) -> Seq<char> {
    member_text(false, "Version"@, a.version@) + tail3(a)
}

/// The members after `Vendor`, grouped from the right.
spec fn tail1(a: Annotations) -> Seq<char> {
    member_text(false, "ProductName"@, a.product_name@) + tail2(a)
}

proof fn lemma_grouped(a: Annotations)
    ensures
        annotations_json(a) == "{"@ + (member_text(true, "CrashTime"@, a.crash_time@) + (
        vendor_text(opt_view(a.vendor)) + tail1(a))),
{
    lemma_regroup(
            "{"@,
            member_text(true, "CrashTime"@, a.crash_time@),
            vendor_text(opt_view(a.vendor)),
            member_text(false, "ProductName"@, a.product_name@),
            member_text(false, "Version"@, a.version@),
            member_text(false, "BuildID"@, a.build_id@),
            member_text(false, "ProductID"@, a.product_id@),
            member_text(false, "ServerURL"@, a.server_url@),
            member_text(false, "ReleaseChannel"@, a.release_channel@),
            member_text(false, "InstallTime"@, a.install_time@),
            "}"@,
    );
}

/// The `.extra` object reads back to the record it was written from: two
/// records with the same object agree on every field, and on whether a
/// vendor is present.
pub proof fn lemma_annotations_json_round_trip(a: Annotations, b: Annotations)
    requires
        annotations_json(a) == annotations_json(b),
    ensures
        a.crash_time@ == b.crash_time@,
        opt_view(a.vendor) == opt_view(b.vendor),
        a.product_name@ == b.product_name@,
        a.version@ == b.version@,
        a.build_id@ == b.build_id@,
        a.product_id@ == b.product_id@,
        a.server_url@ == b.server_url@,
        a.release_channel@ == b.release_channel@,
        a.install_time@ == b.install_time@,
{
    reveal_strlit("{");
    reveal_strlit("Vendor");
    reveal_strlit("ProductName");
    lemma_grouped(a);
    lemma_grouped(b);
    let ma = tail1(a);
    let mb = tail1(b);
    let ra = member_text(true, "CrashTime"@, a.crash_time@) + (vendor_text(opt_view(a.vendor)) + ma);
    let rb = member_text(true, "CrashTime"@, b.crash_time@) + (vendor_text(opt_view(b.vendor)) + mb);
    assert(ra == annotations_json(a).skip(1)) by {
        assert(ra =~= ("{"@ + ra).skip(1));
    }
    assert(rb == annotations_json(b).skip(1)) by {
        assert(rb =~= ("{"@ + rb).skip(1));
    }
    lemma_member_prefix(
        true,
        "CrashTime"@,
        a.crash_time@,
        vendor_text(opt_view(a.vendor)) + ma,
        "CrashTime"@,
        b.crash_time@,
        vendor_text(opt_view(b.vendor)) + mb,
    );
    match (opt_view(a.vendor), opt_view(b.vendor)) {
        (Some(va), Some(vb)) => {
            lemma_member_prefix(false, "Vendor"@, va, ma, "Vendor"@, vb, mb);
        },
        (Some(va), None) => {
            assert(Seq::<char>::empty() + mb =~= mb);
            lemma_member_prefix(false, "Vendor"@, va, ma, "ProductName"@, b.product_name@, tail2(b));
        },
        (None, Some(vb)) => {
            assert(Seq::<char>::empty() + ma =~= ma);
            lemma_member_prefix(false, "ProductName"@, a.product_name@, tail2(a), "Vendor"@, vb, mb);
        },
        (None, None) => {
            assert(Seq::<char>::empty() + ma =~= ma);
            assert(Seq::<char>::empty() + mb =~= mb);
        },
    }
    lemma_member_prefix(false, "ProductName"@, a.product_name@, tail2(a), "ProductName"@, b.product_name@, tail2(b));
    lemma_member_prefix(false, "Version"@, a.version@, tail3(a), "Version"@, b.version@, tail3(b));
    lemma_member_prefix(false, "BuildID"@, a.build_id@, tail4(a), "BuildID"@, b.build_id@, tail4(b));
    lemma_member_prefix(false, "ProductID"@, a.product_id@, tail5(a), "ProductID"@, b.product_id@, tail5(b));
    lemma_member_prefix(false, "ServerURL"@, a.server_url@, tail6(a), "ServerURL"@, b.server_url@, tail6(b));
    lemma_member_prefix(false, "ReleaseChannel"@, a.release_channel@, tail7(a), "ReleaseChannel"@, b.release_channel@, tail7(b));
    lemma_member_prefix(false, "InstallTime"@, a.install_time@, "}"@, "InstallTime"@, b.install_time@, "}"@);
}

} // verus!
