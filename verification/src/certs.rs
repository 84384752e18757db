//! Certificate files: PEM blocks, their base64 payload, and the X.509
//! metadata (through `x509-parser`) that becomes a finding.

use vstd::prelude::*;
use x509_parser::prelude::FromDer;

use crate::models::{opt_view, owned, views, CryptoAsset, DetectionSource, QuantumSafe, Severity};
use crate::text::{chars_of, has_sub, is, lines, lines_of, push_all, trim, trim_chars};

verus! {

// ---------------------------------------------------------------------------
// Outside calls
// ---------------------------------------------------------------------------

/// The text of the bytes when they are valid UTF-8 (`str::from_utf8`).
pub open spec fn utf8_decode(bytes: Seq<u8>) -> Option<Seq<char>> {
    if vstd::utf8::valid_utf8(bytes) {
        Some(vstd::utf8::decode_utf8(bytes))
    } else {
        None
    }
}

/// `std::str::from_utf8`: the text of the bytes when they are valid UTF-8,
/// nothing otherwise.
#[verifier::external_body]
fn std_from_utf8(data: &[u8]) -> (r: Option<String>)
    ensures
        opt_view(r) == utf8_decode(data@),
{
    std::str::from_utf8(data).ok().map(|s| s.to_string())
}

/// What `x509-parser` reads from DER bytes: subject, issuer, expiry (in
/// RFC 2822 form, `None` when it cannot be formatted), serial number in
/// hexadecimal, and public key algorithm; `None` when the bytes do not hold
/// a certificate.
pub uninterp spec fn x509_summary(der: Seq<u8>) -> Option<(Seq<char>, Seq<char>, Option<Seq<char>>, Seq<char>, Seq<char>)>;

/// One certificate's summary: (subject, issuer, expiry, serial, public key algorithm).
pub type CertSummary = (String, String, Option<String>, String, String);

/// A certificate summary as characters.
pub open spec fn summary_view(s: CertSummary) -> (Seq<char>, Seq<char>, Option<Seq<char>>, Seq<char>, Seq<char>) {
    (s.0@, s.1@, opt_view(s.2), s.3@, s.4@)
}

/// `X509Certificate::from_der` on the bytes, then the certificate's
/// `subject()` and `issuer()` (as displayed), `validity().not_after.to_rfc2822()`,
/// `serial.to_str_radix(16)` and the public key algorithm identifier (as
/// debug-printed). The result is named `x509_summary`.
#[verifier::external_body]
fn x509_certificate_summary(der: &[u8]) -> (r: Option<CertSummary>)
    ensures
        r matches Some(s) ==> x509_summary(der@) == Some(summary_view(s)),
        r is None ==> x509_summary(der@) is None,
{
    let (_, cert) = x509_parser::certificate::X509Certificate::from_der(der).ok()?;
    Some((
        cert.subject().to_string(),
        cert.issuer().to_string(),
        cert.validity().not_after.to_rfc2822().ok(),
        cert.serial.to_str_radix(16),
        format!("{:?}", cert.public_key().algorithm.algorithm),
    ))
}

// ---------------------------------------------------------------------------
// PEM blocks
// ---------------------------------------------------------------------------

/// The PEM reader's state: inside a block, the block so far, the blocks found.
pub type PemState = (bool, Seq<char>, Seq<Seq<char>>);

/// One line read by the PEM reader.
pub open spec fn pem_step(st: PemState, line: Seq<char>) -> PemState {
    let t = trim(line);
    if t == "-----BEGIN CERTIFICATE-----"@ {
        (true, Seq::empty(), st.2)
    } else if t == "-----END CERTIFICATE-----"@ {
        (
            false,
            st.1,
            if st.0 && st.1.len() > 0 {
                st.2.push(st.1)
            } else {
                st.2
            },
        )
    } else if st.0 {
        (true, st.1 + t, st.2)
    } else {
        st
    }
}

/// The PEM reader's state after the given lines.
pub open spec fn pem_fold(ls: Seq<Seq<char>>) -> PemState
    decreases ls.len(),
{
    if ls.len() == 0 {
        (false, Seq::empty(), Seq::empty())
    } else {
        pem_step(pem_fold(ls.drop_last()), ls.last())
    }
}

/// The base64 payloads of the certificate blocks of a text: the trimmed
/// lines between BEGIN and END markers, joined; empty blocks left out.
pub open spec fn pem_block_texts(text: Seq<char>) -> Seq<Seq<char>> {
    pem_fold(lines(text)).2
}

/// Extract the PEM blocks (base64 content between the markers) of a text.
pub fn pem_blocks(text: &str) -> (r: Vec<String>)
    ensures
        views(r@) == pem_block_texts(text@),
{
    let src = chars_of(text);
    let ls = lines_of(&src);
    let ghost all = lines(text@);
    let mut blocks: Vec<String> = Vec::new();
    let mut in_block = false;
    let mut current: Vec<char> = Vec::new();
    let mut i: usize = 0;
    while i < ls.len()
        invariant
            i <= ls@.len(),
            ls@.len() == all.len(),
            forall|k: int| 0 <= k < ls@.len() ==> #[trigger] ls@[k]@ == all[k],
            pem_fold(all.subrange(0, i as int)) == (in_block, current@, views(blocks@)),
        decreases ls.len() - i,
    {
        assert(all.subrange(0, i + 1).drop_last() =~= all.subrange(0, i as int));
        assert(all.subrange(0, i + 1).last() == ls@[i as int]@);
        let t = trim_chars(&ls[i]);
        if is(&t, "-----BEGIN CERTIFICATE-----") {
            in_block = true;
            current = Vec::new();
        } else if is(&t, "-----END CERTIFICATE-----") {
            if in_block && current.len() > 0 {
                let b = crate::text::string_of(&current);
                proof {
                    crate::models::lemma_views_push(blocks@, b);
                }
                blocks.push(b);
            }
            in_block = false;
        } else if in_block {
            push_all(&mut current, &t);
        }
        i = i + 1;
    }
    assert(all.subrange(0, ls@.len() as int) =~= all);
    blocks
}

// ---------------------------------------------------------------------------
// Base64
// ---------------------------------------------------------------------------

/// The value of a base64 symbol, if `c` is one.
pub open spec fn b64_value(c: char) -> Option<u8> {
    if 'A' <= c && c <= 'Z' {
        Some(((c as int) - 65) as u8)
    } else if 'a' <= c && c <= 'z' {
        Some(((c as int) - 97 + 26) as u8)
    } else if '0' <= c && c <= '9' {
        Some(((c as int) - 48 + 52) as u8)
    } else if c == '+' {
        Some(62u8)
    } else if c == '/' {
        Some(63u8)
    } else {
        None
    }
}

/// The values of the base64 symbols of `s`, other characters skipped.
pub open spec fn b64_symbols(s: Seq<char>) -> Seq<u8>
    decreases s.len(),
{
    if s.len() == 0 {
        Seq::empty()
    } else {
        match b64_value(s.last()) {
            Some(v) => b64_symbols(s.drop_last()).push(v),
            None => b64_symbols(s.drop_last()),
        }
    }
}

/// The first byte of a base64 group.
pub open spec fn b64_byte1(a: u8, b: u8) -> u8 {
    (a * 4 + b / 16) as u8
}

/// The second byte of a base64 group.
pub open spec fn b64_byte2(b: u8, c: u8) -> u8 {
    ((b % 16) * 16 + c / 4) as u8
}

/// The third byte of a base64 group.
pub open spec fn b64_byte3(c: u8, d: u8) -> u8 {
    ((c % 4) * 64 + d) as u8
}

/// Base64 decoding of symbol values, four at a time; a final group of two
/// or three symbols gives one or two bytes, a lone final symbol nothing.
pub open spec fn b64_decode(v: Seq<u8>) -> Seq<u8>
    decreases v.len(),
{
    if v.len() < 2 {
        Seq::empty()
    } else if v.len() == 2 {
        seq![b64_byte1(v[0], v[1])]
    } else if v.len() == 3 {
        seq![b64_byte1(v[0], v[1]), b64_byte2(v[1], v[2])]
    } else {
        seq![b64_byte1(v[0], v[1]), b64_byte2(v[1], v[2]), b64_byte3(v[2], v[3])] + b64_decode(
            v.subrange(4, v.len() as int),
        )
    }
}

/// The value of a base64 symbol.
fn b64_value_exec(c: char) -> (r: Option<u8>)
    ensures
        r == b64_value(c),
{
    if 'A' <= c && c <= 'Z' {
        Some((c as u32 - 65) as u8)
    } else if 'a' <= c && c <= 'z' {
        Some((c as u32 - 97 + 26) as u8)
    } else if '0' <= c && c <= '9' {
        Some((c as u32 - 48 + 52) as u8)
    } else if c == '+' {
        Some(62u8)
    } else if c == '/' {
        Some(63u8)
    } else {
        None
    }
}

/// The bytes of one group of four symbol values.
fn b64_group(a: u8, b: u8, c: u8, d: u8) -> (r: (u8, u8, u8))
    requires
        a < 64,
        b < 64,
        c < 64,
        d < 64,
    ensures
        r.0 == b64_byte1(a, b),
        r.1 == b64_byte2(b, c),
        r.2 == b64_byte3(c, d),
{
    let triple: u32 = ((a as u32) << 18u32) | ((b as u32) << 12u32) | ((c as u32) << 6u32) | (d as u32);
    let x = (triple >> 16u32) as u8;
    let y = (triple >> 8u32) as u8;
    let z = triple as u8;
    let (aa, bb, cc, dd) = (a as u32, b as u32, c as u32, d as u32);
    assert(((((aa << 18u32) | (bb << 12u32) | (cc << 6u32) | dd) >> 16u32) as u8) == ((aa * 4 + bb / 16) as u8)) by (bit_vector)
        requires
            aa < 64,
            bb < 64,
            cc < 64,
            dd < 64,
    ;
    assert(((((aa << 18u32) | (bb << 12u32) | (cc << 6u32) | dd) >> 8u32) as u8) == (((bb % 16) * 16 + cc / 4) as u8)) by (bit_vector)
        requires
            aa < 64,
            bb < 64,
            cc < 64,
            dd < 64,
    ;
    assert((((aa << 18u32) | (bb << 12u32) | (cc << 6u32) | dd) as u8) == (((cc % 4) * 64 + dd) as u8)) by (bit_vector)
        requires
            aa < 64,
            bb < 64,
            cc < 64,
            dd < 64,
    ;
    (x, y, z)
}

/// Decode base64 PEM content to raw DER bytes; characters outside the
/// base64 alphabet (padding, white space) are skipped.
pub fn base64_decode_pem(b64: &str) -> (r: Option<Vec<u8>>)
    ensures
        r matches Some(v) && v@ == b64_decode(b64_symbols(b64@)),
{
    let s = chars_of(b64);
    let mut vals: Vec<u8> = Vec::new();
    let mut i: usize = 0;
    while i < s.len()
        invariant
            i <= s@.len(),
            s@ == b64@,
            vals@ == b64_symbols(s@.subrange(0, i as int)),
            forall|k: int| 0 <= k < vals@.len() ==> vals@[k] < 64,
        decreases s.len() - i,
    {
        assert(s@.subrange(0, i + 1).drop_last() =~= s@.subrange(0, i as int));
        match b64_value_exec(s[i]) {
            Some(v) => {
                vals.push(v);
            },
            None => {},
        }
        i = i + 1;
    }
    assert(s@.subrange(0, s@.len() as int) =~= s@);
    let ghost all = vals@;
    let mut out: Vec<u8> = Vec::new();
    let mut j: usize = 0;
    assert(all.subrange(0, all.len() as int) =~= all);
    assert(out@ + b64_decode(all) =~= b64_decode(all));
    while j < vals.len() && vals.len() - j >= 2
        invariant
            j <= vals@.len(),
            all == vals@,
            forall|k: int| 0 <= k < vals@.len() ==> vals@[k] < 64,
            out@ + b64_decode(all.subrange(j as int, all.len() as int)) == b64_decode(all),
        decreases vals.len() - j,
    {
        let n = vals.len() - j;
        let ghost rest = all.subrange(j as int, all.len() as int);
        let a = vals[j];
        let b = vals[j + 1];
        let c = if n > 2 { vals[j + 2] } else { 0 };
        let d = if n > 3 { vals[j + 3] } else { 0 };
        let (x, y, z) = b64_group(a, b, c, d);
        let ghost before = out@;
        out.push(x);
        if n > 2 {
            out.push(y);
        }
        if n > 3 {
            out.push(z);
        }
        if n >= 4 {
            assert(rest.subrange(4, rest.len() as int) =~= all.subrange(j + 4, all.len() as int));
            assert(out@ =~= before + seq![b64_byte1(a, b), b64_byte2(b, c), b64_byte3(c, d)]);
            assert(before + b64_decode(rest) =~= out@ + b64_decode(all.subrange(j + 4, all.len() as int)));
            j = j + 4;
        } else {
            assert(out@ =~= before + b64_decode(rest));
            j = vals.len();
            assert(all.subrange(j as int, all.len() as int) =~= Seq::<u8>::empty());
            assert(out@ + b64_decode(all.subrange(j as int, all.len() as int)) =~= out@);
        }
    }
    assert(b64_decode(all.subrange(j as int, all.len() as int)) =~= Seq::<u8>::empty());
    assert(out@ =~= b64_decode(all));
    Some(out)
}

// ---------------------------------------------------------------------------
// Certificates
// ---------------------------------------------------------------------------

/// (subject, issuer, expiry, serial, public key algorithm) of a certificate.
pub type CertInfo = (String, String, String, String, String);

/// Certificate information as characters.
pub type CertView = (Seq<char>, Seq<char>, Seq<char>, Seq<char>, Seq<char>);

/// Certificate information as characters.
pub open spec fn info_view(i: CertInfo) -> CertView {
    (i.0@, i.1@, i.2@, i.3@, i.4@)
}

/// Lists of certificate information as characters.
pub open spec fn infos_view(v: Seq<CertInfo>) -> Seq<CertView> {
    v.map_values(|i: CertInfo| info_view(i))
}

/// The information kept of a summary: an expiry that cannot be formatted
/// reads `"Unknown"`.
pub open spec fn info_of(s: (Seq<char>, Seq<char>, Option<Seq<char>>, Seq<char>, Seq<char>)) -> CertView {
    (
        s.0,
        s.1,
        match s.2 {
            Some(e) => e,
            None => "Unknown"@,
        },
        s.3,
        s.4,
    )
}

/// The certificate information held by DER bytes.
pub open spec fn der_info(der: Seq<u8>) -> Option<CertView> {
    match x509_summary(der) {
        Some(s) => Some(info_of(s)),
        None => None,
    }
}

/// The certificates of the PEM blocks, in order; blocks that do not decode
/// to a certificate are skipped.
pub open spec fn block_infos(blocks: Seq<Seq<char>>) -> Seq<CertView>
    decreases blocks.len(),
{
    if blocks.len() == 0 {
        Seq::empty()
    } else {
        let prev = block_infos(blocks.drop_last());
        match der_info(b64_decode(b64_symbols(blocks.last()))) {
            Some(i) => prev.push(i),
            None => prev,
        }
    }
}

/// The certificates of PEM-encoded bytes: `None` unless the bytes are text
/// with a BEGIN CERTIFICATE marker and some block holds a certificate.
pub open spec fn pem_certs(data: Seq<u8>) -> Option<Seq<CertView>> {
    match utf8_decode(data) {
        None => None,
        Some(t) => if !has_sub(t, "-----BEGIN CERTIFICATE-----"@) {
            None
        } else if block_infos(pem_block_texts(t)).len() == 0 {
            None
        } else {
            Some(block_infos(pem_block_texts(t)))
        },
    }
}

/// The certificate of DER-encoded bytes.
pub open spec fn der_certs(data: Seq<u8>) -> Option<Seq<CertView>> {
    match der_info(data) {
        Some(i) => Some(seq![i]),
        None => None,
    }
}

/// The certificates of a certificate file: PEM first, then DER.
pub open spec fn certificate_infos(data: Seq<u8>) -> Seq<CertView> {
    match pem_certs(data) {
        Some(v) => v,
        None => match der_certs(data) {
            Some(v) => v,
            None => Seq::empty(),
        },
    }
}

/// Extract certificate information from DER-encoded bytes.
pub fn extract_cert_info_from_der(der_data: &[u8]) -> (r: Option<CertInfo>)
    ensures
        r matches Some(i) ==> der_info(der_data@) == Some(info_view(i)),
        r is None ==> der_info(der_data@) is None,
{
    match x509_certificate_summary(der_data) {
        Some(s) => {
            let expiry = match s.2 {
                Some(e) => e,
                None => owned("Unknown"),
            };
            Some((s.0, s.1, expiry, s.3, s.4))
        },
        None => None,
    }
}

/// Try to parse PEM-encoded certificates from raw bytes.
pub fn parse_pem_certs(data: &[u8]) -> (r: Option<Vec<CertInfo>>)
    ensures
        r matches Some(v) ==> pem_certs(data@) == Some(infos_view(v@)),
        r is None ==> pem_certs(data@) is None,
{
    let text = match std_from_utf8(data) {
        Some(t) => t,
        None => return None,
    };
    let tc = chars_of(text.as_str());
    if !crate::text::contains(&tc, "-----BEGIN CERTIFICATE-----") {
        return None;
    }
    let blocks = pem_blocks(text.as_str());
    let ghost bv = views(blocks@);
    let mut results: Vec<CertInfo> = Vec::new();
    let mut i: usize = 0;
    while i < blocks.len()
        invariant
            i <= blocks@.len(),
            bv == views(blocks@),
            infos_view(results@) == block_infos(bv.subrange(0, i as int)),
        decreases blocks.len() - i,
    {
        assert(bv.subrange(0, i + 1).drop_last() =~= bv.subrange(0, i as int));
        assert(bv.subrange(0, i + 1).last() == blocks@[i as int]@);
        match base64_decode_pem(blocks[i].as_str()) {
            Some(der) => {
                match extract_cert_info_from_der(&der) {
                    Some(info) => {
                        results.push(info);
                        assert(infos_view(results@) =~= block_infos(bv.subrange(0, i as int)).push(info_view(info)));
                    },
                    None => {},
                }
            },
            None => {},
        }
        i = i + 1;
    }
    assert(bv.subrange(0, blocks@.len() as int) =~= bv);
    if results.len() == 0 {
        None
    } else {
        Some(results)
    }
}

/// Try to parse a single DER-encoded certificate.
pub fn parse_der_cert(data: &[u8]) -> (r: Option<Vec<CertInfo>>)
    ensures
        r matches Some(v) ==> der_certs(data@) == Some(infos_view(v@)),
        r is None ==> der_certs(data@) is None,
{
    match extract_cert_info_from_der(data) {
        Some(info) => {
            let mut v: Vec<CertInfo> = Vec::new();
            v.push(info);
            assert(infos_view(v@) =~= seq![info_view(info)]);
            Some(v)
        },
        None => None,
    }
}

/// `a` is the finding of the certificate `c` in the file `file`.
pub open spec fn is_cert_asset(a: CryptoAsset, file: Seq<char>, c: CertView) -> bool {
    &&& a.algorithm@ == c.4
    &&& a.file_path@ == file
    &&& a.line_number == 1
    &&& a.library_source@ == "x509-certificate"@
    &&& a.key_size is None
    &&& a.mode is None
    &&& a.padding is None
    &&& a.curve is None
    &&& a.quantum_safe == QuantumSafe::Unknown
    &&& a.severity == Severity::Unknown
    &&& a.detection_source == DetectionSource::SourceCode
    &&& a.findings@.len() == 0
    &&& opt_view(a.cert_subject) == Some(c.0)
    &&& opt_view(a.cert_issuer) == Some(c.1)
    &&& opt_view(a.cert_expiry) == Some(c.2)
    &&& opt_view(a.cert_serial) == Some(c.3)
    &&& a.protocol_version is None
    &&& a.cipher_suites@.len() == 0
    &&& a.dependency_path is None
    &&& a.remediation is None
}

/// Scan the bytes of a certificate file (.pem, .crt, .cer, .der) for X.509
/// metadata: one finding per certificate, PEM tried first, then DER.
pub fn scan_certificate_bytes(data: &[u8], file_path: &str) -> (r: Vec<CryptoAsset>)
    ensures
        r@.len() == certificate_infos(data@).len(),
        forall|i: int| 0 <= i < r@.len() ==> is_cert_asset(#[trigger] r@[i], file_path@, certificate_infos(data@)[i]),
{
    let certs = match parse_pem_certs(data) {
        Some(v) => v,
        None => match parse_der_cert(data) {
            Some(v) => v,
            None => Vec::new(),
        },
    };
    let ghost cv = infos_view(certs@);
    assert(cv == certificate_infos(data@)) by {
        if pem_certs(data@) is None && der_certs(data@) is None {
            assert(cv =~= Seq::<CertView>::empty());
        }
    }
    let mut findings: Vec<CryptoAsset> = Vec::new();
    let mut i: usize = 0;
    while i < certs.len()
        invariant
            i <= certs@.len(),
            cv == infos_view(certs@),
            findings@.len() == i,
            forall|k: int| 0 <= k < i ==> is_cert_asset(#[trigger] findings@[k], file_path@, cv[k]),
        decreases certs.len() - i,
    {
        let c = &certs[i];
        assert(cv[i as int] == info_view(certs@[i as int]));
        let mut asset = CryptoAsset::new(c.4.clone(), owned(file_path), 1, owned("x509-certificate"));
        asset.cert_subject = Some(c.0.clone());
        asset.cert_issuer = Some(c.1.clone());
        asset.cert_expiry = Some(c.2.clone());
        asset.cert_serial = Some(c.3.clone());
        asset.detection_source = DetectionSource::SourceCode;
        findings.push(asset);
        i = i + 1;
    }
    findings
}

// ---------------------------------------------------------------------------
// Laws
// ---------------------------------------------------------------------------

/// The base64 symbol of a value below 64.
pub open spec fn b64_char(v: u8) -> char {
    if v < 26 {
        ((v + 65) as u32) as char
    } else if v < 52 {
        ((v - 26 + 97) as u32) as char
    } else if v < 62 {
        ((v - 52 + 48) as u32) as char
    } else if v == 62 {
        '+'
    } else {
        '/'
    }
}

/// The standard base64 encoding (RFC 4648 alphabet, `=` padding) of bytes.
pub open spec fn b64_text(x: Seq<u8>) -> Seq<char>
    decreases x.len(),
{
    if x.len() == 0 {
        Seq::empty()
    } else if x.len() == 1 {
        seq![b64_char(x[0] / 4), b64_char(((x[0] % 4) * 16) as u8), '=', '=']
    } else if x.len() == 2 {
        seq![b64_char(x[0] / 4), b64_char(((x[0] % 4) * 16 + x[1] / 16) as u8), b64_char(((x[1] % 16) * 4) as u8), '=']
    } else {
        seq![
            b64_char(x[0] / 4),
            b64_char(((x[0] % 4) * 16 + x[1] / 16) as u8),
            b64_char(((x[1] % 16) * 4 + x[2] / 64) as u8),
            b64_char(x[2] % 64),
        ] + b64_text(x.subrange(3, x.len() as int))
    }
}

/// Decoding the standard base64 encoding of any bytes gives the bytes back.
pub proof fn law_base64_round_trip(x: Seq<u8>)
    ensures
        b64_decode(b64_symbols(b64_text(x))) == x,
    decreases x.len(),
{
    if x.len() == 0 {
        assert(b64_symbols(Seq::<char>::empty()) =~= Seq::<u8>::empty());
    } else if x.len() == 1 {
        let a = x[0] / 4;
        let b = ((x[0] % 4) * 16) as u8;
        lemma_b64_char_value(a);
        lemma_b64_char_value(b);
        lemma_b64_group_symbols(seq![b64_char(a), b64_char(b), '=', '='], seq![a, b]);
        assert(b64_byte1(a, b) == x[0]) by (nonlinear_arith)
            requires
                a == x[0] / 4,
                b == ((x[0] % 4) * 16) as u8,
        ;
        assert(b64_decode(seq![a, b]) =~= x);
    } else if x.len() == 2 {
        let a = x[0] / 4;
        let b = ((x[0] % 4) * 16 + x[1] / 16) as u8;
        let c = ((x[1] % 16) * 4) as u8;
        lemma_b64_char_value(a);
        lemma_b64_char_value(b);
        lemma_b64_char_value(c);
        lemma_b64_group_symbols(seq![b64_char(a), b64_char(b), b64_char(c), '='], seq![a, b, c]);
        lemma_b64_bytes(x[0], x[1], 0);
        assert(b64_decode(seq![a, b, c]) =~= x);
    } else {
        let a = x[0] / 4;
        let b = ((x[0] % 4) * 16 + x[1] / 16) as u8;
        let c = ((x[1] % 16) * 4 + x[2] / 64) as u8;
        let d = x[2] % 64;
        lemma_b64_char_value(a);
        lemma_b64_char_value(b);
        lemma_b64_char_value(c);
        lemma_b64_char_value(d);
        let g = seq![b64_char(a), b64_char(b), b64_char(c), b64_char(d)];
        let rest = x.subrange(3, x.len() as int);
        lemma_b64_group_symbols(g, seq![a, b, c, d]);
        lemma_b64_symbols_concat(g, b64_text(rest));
        law_base64_round_trip(rest);
        lemma_b64_bytes(x[0], x[1], x[2]);
        let v = seq![a, b, c, d] + b64_symbols(b64_text(rest));
        assert(v.subrange(4, v.len() as int) =~= b64_symbols(b64_text(rest)));
        if v.len() == 4 {
            assert(b64_decode(v.subrange(4, v.len() as int)) =~= Seq::<u8>::empty());
        }
        assert(b64_decode(v) =~= x);
    }
}

/// The bytes of a group come back from the symbol values of their encoding.
proof fn lemma_b64_bytes(x0: u8, x1: u8, x2: u8)
    ensures
        b64_byte1(x0 / 4, ((x0 % 4) * 16 + x1 / 16) as u8) == x0,
        b64_byte2(((x0 % 4) * 16 + x1 / 16) as u8, ((x1 % 16) * 4 + x2 / 64) as u8) == x1,
        b64_byte3(((x1 % 16) * 4 + x2 / 64) as u8, x2 % 64) == x2,
        b64_byte2(((x0 % 4) * 16 + x1 / 16) as u8, ((x1 % 16) * 4) as u8) == x1,
{
    assert(b64_byte1(x0 / 4, ((x0 % 4) * 16 + x1 / 16) as u8) == x0) by (bit_vector);
    assert(b64_byte2(((x0 % 4) * 16 + x1 / 16) as u8, ((x1 % 16) * 4 + x2 / 64) as u8) == x1) by (bit_vector);
    assert(b64_byte3(((x1 % 16) * 4 + x2 / 64) as u8, x2 % 64) == x2) by (bit_vector);
    assert(b64_byte2(((x0 % 4) * 16 + x1 / 16) as u8, ((x1 % 16) * 4) as u8) == x1) by (bit_vector);
}

/// A value below 64 is read back from its symbol.
proof fn lemma_b64_char_value(v: u8)
    requires
        v < 64,
    ensures
        b64_value(b64_char(v)) == Some(v),
{
}

/// The symbol values of a group whose symbols are known.
proof fn lemma_b64_group_symbols(g: Seq<char>, vals: Seq<u8>)
    requires
        g.len() == 4,
        vals.len() <= 4,
        forall|i: int| 0 <= i < vals.len() ==> b64_value(g[i]) == Some(vals[i]),
        forall|i: int| vals.len() <= i < 4 ==> g[i] == '=',
    ensures
        b64_symbols(g) == vals,
{
    assert(b64_value('=') is None);
    let g1 = g.subrange(0, 1);
    let g2 = g.subrange(0, 2);
    let g3 = g.subrange(0, 3);
    assert(g1.drop_last() =~= Seq::<char>::empty());
    assert(g2.drop_last() =~= g1);
    assert(g3.drop_last() =~= g2);
    assert(g.drop_last() =~= g3);
    assert(b64_symbols(Seq::<char>::empty()) =~= Seq::<u8>::empty());
    assert(b64_symbols(g1) =~= vals.subrange(0, if vals.len() >= 1 { 1 } else { 0 }));
    assert(b64_symbols(g2) =~= vals.subrange(0, if vals.len() >= 2 { 2 } else { vals.len() as int }));
    assert(b64_symbols(g3) =~= vals.subrange(0, if vals.len() >= 3 { 3 } else { vals.len() as int }));
    assert(b64_symbols(g) =~= vals);
}

/// The symbol values of a concatenation.
proof fn lemma_b64_symbols_concat(a: Seq<char>, b: Seq<char>)
    ensures
        b64_symbols(a + b) == b64_symbols(a) + b64_symbols(b),
    decreases b.len(),
{
    if b.len() == 0 {
        assert(a + b =~= a);
        assert(b64_symbols(a) + b64_symbols(b) =~= b64_symbols(a));
    } else {
        lemma_b64_symbols_concat(a, b.drop_last());
        assert((a + b).drop_last() =~= a + b.drop_last());
        assert((a + b).last() == b.last());
        match b64_value(b.last()) {
            Some(v) => {
                assert(b64_symbols(a) + b64_symbols(b) =~= (b64_symbols(a) + b64_symbols(b.drop_last())).push(v));
            },
            None => {},
        }
    }
}

} // verus!
