//! The connect URL (`nub url`, `nub qr` and the boot banner): where a
//! browser lands to pair, with the admin token in the fragment.

use qrcode::render::unicode::Dense1x2;
use qrcode::{EcLevel, QrCode};
use vstd::prelude::*;
use vstd::string::StringExecFns;

use crate::config::file::Config;
use crate::text::{from_chars, slice_chars, to_chars};

verus! {

/// The last index of `c` in `s`.
pub open spec fn last_index(s: Seq<char>, c: char) -> Option<int>
    decreases s.len(),
{
    if s.len() == 0 {
        None
    } else if s.last() == c {
        Some(s.len() - 1)
    } else {
        last_index(s.drop_last(), c)
    }
}

/// A bracket of an IPv6 literal.
pub open spec fn is_bracket(c: char) -> bool {
    c == '[' || c == ']'
}

/// `s` without leading brackets.
pub open spec fn trim_start_brackets(s: Seq<char>) -> Seq<char>
    decreases s.len(),
{
    if s.len() > 0 && is_bracket(s[0]) {
        trim_start_brackets(s.drop_first())
    } else {
        s
    }
}

/// `s` without trailing brackets.
pub open spec fn trim_end_brackets(s: Seq<char>) -> Seq<char>
    decreases s.len(),
{
    if s.len() > 0 && is_bracket(s.last()) {
        trim_end_brackets(s.drop_last())
    } else {
        s
    }
}

/// A host part that binds every interface: `0.0.0.0`, `::` or nothing,
/// with any surrounding brackets ignored (so `[::]` too).
pub open spec fn unspecified_host(host: Seq<char>) -> bool {
    let h = trim_end_brackets(trim_start_brackets(host));
    h == "0.0.0.0"@ || h == "::"@ || h.len() == 0
}

/// The authority shown for a listen address: the host part with the
/// port, where an unspecified host is replaced by the hostname so the URL
/// works on the LAN. Specific hosts pass through unchanged.
pub open spec fn spec_display_authority(listen: Seq<char>, hostname: Seq<char>) -> Seq<char> {
    let (host, port) = match last_index(listen, ':') {
        Some(i) => (listen.subrange(0, i), listen.subrange(i + 1, listen.len() as int)),
        None => (listen, seq![]),
    };
    let shown = if unspecified_host(host) {
        hostname
    } else {
        host
    };
    if port.len() == 0 {
        shown
    } else {
        shown + seq![':'] + port
    }
}

/// The authority to print for `listen`.
pub fn display_authority(listen: &str, hostname: &str) -> (res: String)
    ensures
        res@ == spec_display_authority(listen@, hostname@),
{
    let c = to_chars(listen);
    let n = c.len();
    let mut k: usize = n;
    assert(c@.subrange(0, n as int) =~= c@);
    while k > 0 && c[k - 1] != ':'
        invariant
            k <= n,
            n == c@.len(),
            last_index(c@, ':') == last_index(c@.subrange(0, k as int), ':'),
        decreases k,
    {
        assert(c@.subrange(0, k as int).drop_last() =~= c@.subrange(0, k - 1));
        k = k - 1;
    }
    assert(c@.subrange(0, n as int) =~= c@);
    let (host, port) = if k == 0 {
        assert(last_index(c@.subrange(0, 0), ':') is None);
        (slice_chars(c.as_slice(), 0, n), slice_chars(c.as_slice(), n, n))
    } else {
        assert(c@.subrange(0, k as int).last() == c@[k - 1]);
        (slice_chars(c.as_slice(), 0, k - 1), slice_chars(c.as_slice(), k, n))
    };
    assert(k == 0 ==> host@ =~= c@ && port@ =~= Seq::<char>::empty());
    let mut lo: usize = 0;
    let hn = host.len();
    assert(host@.subrange(0, hn as int) =~= host@);
    while lo < hn && (host[lo] == '[' || host[lo] == ']')
        invariant
            lo <= hn,
            hn == host@.len(),
            trim_start_brackets(host@) == trim_start_brackets(host@.subrange(lo as int, hn as int)),
        decreases hn - lo,
    {
        assert(host@.subrange(lo as int, hn as int).drop_first() =~= host@.subrange(lo + 1, hn as int));
        lo = lo + 1;
    }
    let mut hi: usize = hn;
    assert(trim_start_brackets(host@) =~= host@.subrange(lo as int, hn as int));
    while hi > lo && (host[hi - 1] == '[' || host[hi - 1] == ']')
        invariant
            lo <= hi <= hn,
            hn == host@.len(),
            trim_end_brackets(host@.subrange(lo as int, hn as int)) == trim_end_brackets(
                host@.subrange(lo as int, hi as int),
            ),
        decreases hi - lo,
    {
        assert(host@.subrange(lo as int, hi as int).drop_last() =~= host@.subrange(lo as int, hi - 1));
        hi = hi - 1;
    }
    let h = slice_chars(host.as_slice(), lo, hi);
    assert(h@ == trim_end_brackets(trim_start_brackets(host@)));
    let unspecified = crate::text::chars_eq(h.as_slice(), to_chars("0.0.0.0").as_slice()) || crate::text::chars_eq(
        h.as_slice(),
        to_chars("::").as_slice(),
    ) || h.len() == 0;
    let mut out = if unspecified {
        String::from_str(hostname)
    } else {
        from_chars(host.as_slice())
    };
    if port.len() > 0 {
        out.push(':');
        out.append(from_chars(port.as_slice()).as_str());
    }
    out
}

/// `<scheme>://<authority>/add#t=<token>`, `https` when TLS is on.
pub open spec fn spec_connect_url(listen: Seq<char>, tls: bool, token: Seq<char>, hostname: Seq<char>) -> Seq<char> {
    (if tls {
        "https"@
    } else {
        "http"@
    }) + "://"@ + spec_display_authority(listen, hostname) + "/add#t="@ + token
}

/// The URL the boot banner prints.
pub fn url_for_banner(listen: &str, tls: bool, token: &str, hostname: &str) -> (res: String)
    ensures
        res@ == spec_connect_url(listen@, tls, token@, hostname@),
{
    let mut out = if tls {
        String::from_str("https")
    } else {
        String::from_str("http")
    };
    out.append("://");
    out.append(display_authority(listen, hostname).as_str());
    out.append("/add#t=");
    out.append(token);
    out
}

/// The listen address when none is configured.
pub open spec fn default_listen() -> Seq<char> {
    "0.0.0.0:8080"@
}

/// The connect URL for a configuration: its listen address (or the
/// default), and TLS when both a certificate and a key are set.
pub fn build_url(cfg: &Config, token: &str, hostname: &str) -> (res: String)
    ensures
        res@ == spec_connect_url(
            match cfg.listen {
                Some(l) => l@,
                None => default_listen(),
            },
            cfg.tls_cert is Some && cfg.tls_key is Some,
            token@,
            hostname@,
        ),
{
    let listen = match &cfg.listen {
        Some(l) => l.clone(),
        None => String::from_str("0.0.0.0:8080"),
    };
    let tls = cfg.tls_cert.is_some() && cfg.tls_key.is_some();
    url_for_banner(listen.as_str(), tls, token, hostname)
}

/// The last `c` is the one before a tail without `c`.
proof fn lemma_last_index_before_tail(a: Seq<char>, b: Seq<char>, c: char)
    requires
        !b.contains(c),
    ensures
        last_index(a + seq![c] + b, c) == Some(a.len() as int),
    decreases b.len(),
{
    let s = a + seq![c] + b;
    if b.len() == 0 {
        assert(s.last() == c);
    } else {
        assert(s.drop_last() =~= a + seq![c] + b.drop_last());
        assert(s.last() == b.last());
        assert(b.last() == b[b.len() - 1]);
        assert(!b.drop_last().contains(c)) by {
            if b.drop_last().contains(c) {
                let k = choose|k: int| 0 <= k < b.drop_last().len() && b.drop_last()[k] == c;
                assert(b[k] == c);
            }
        }
        lemma_last_index_before_tail(a, b.drop_last(), c);
    }
}

/// A specific host with a port, bracketed or not, is shown exactly as
/// given: only unspecified hosts are replaced.
pub proof fn law_specific_address_unchanged(host: Seq<char>, port: Seq<char>, hostname: Seq<char>)
    requires
        !unspecified_host(host),
        port.len() > 0,
        !port.contains(':'),
    ensures
        spec_display_authority(host + seq![':'] + port, hostname) == host + seq![':'] + port,
{
    let listen = host + seq![':'] + port;
    lemma_last_index_before_tail(host, port, ':');
    assert(listen.subrange(0, host.len() as int) =~= host);
    assert(listen.subrange(host.len() as int + 1, listen.len() as int) =~= port);
}

/// What `qrcode` renders for a text: the `QrCode` at error-correction
/// level L, drawn with `Dense1x2` blocks in inverted colors, or the error's
/// text.
pub uninterp spec fn qr_dense_text(text: Seq<char>) -> Result<Seq<char>, Seq<char>>;

/// `QrCode::with_error_correction_level(text, EcLevel::L)` rendered with
/// `Dense1x2`, light modules dark (for dark terminals). Claimed: the
/// outcome is named by `qr_dense_text`.
#[verifier::external_body]
fn qr_image(text: &str) -> (res: Result<String, String>)
    ensures
        match qr_dense_text(text@) {
            Ok(t) => res matches Ok(r) && r@ == t,
            Err(m) => res matches Err(e) && e@ == m,
        },
{
    match QrCode::with_error_correction_level(text.as_bytes(), EcLevel::L) {
        Ok(code) => Ok(code.render::<Dense1x2>().dark_color(Dense1x2::Light).light_color(Dense1x2::Dark).build()),
        Err(e) => Err(e.to_string()),
    }
}

/// The connect URL as a terminal QR code, preceded by a blank line, so a
/// device with a camera lands directly on `/add#t=...`; or the reason it
/// could not be drawn.
pub fn render_qr(url: &str) -> (res: Result<String, String>)
    ensures
        match qr_dense_text(url@) {
            Ok(t) => res matches Ok(r) && r@ == seq!['\n'] + t,
            Err(m) => res matches Err(e) && e@ == "could not render connect QR: "@ + m,
        },
{
    match qr_image(url) {
        Ok(image) => {
            let mut out = String::new();
            out.push('\n');
            out.append(image.as_str());
            Ok(out)
        },
        Err(e) => {
            let mut m = String::from_str("could not render connect QR: ");
            m.append(e.as_str());
            Err(m)
        },
    }
}

} // verus!
