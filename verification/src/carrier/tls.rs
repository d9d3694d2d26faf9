//! What TLS is set up with: the certificate of a server, the roots that a client trusts,
//! and the configuration with which it hides the name of its server. The last two come as
//! bytes that `rustls` has to take.

use crate::text;
use rustls::client::{verify_server_name, EchConfig};
use rustls::crypto::aws_lc_rs::hpke::ALL_SUPPORTED_SUITES;
use rustls::pki_types::{CertificateDer, EchConfigListBytes, PrivatePkcs8KeyDer, ServerName};
use rustls::server::ParsedCertificate;
use rustls::sign::CertifiedKey;
use rustls::RootCertStore;
use vstd::prelude::*;

verus! {

/// The certificates in PEM data, each in DER, and in their place the explanation of every
/// section that cannot be read; as `rustls_pemfile` finds them, in order.
pub uninterp spec fn pem_items(data: Seq<u8>) -> Seq<Result<Seq<u8>, Seq<char>>>;

/// Why `rustls` refuses a certificate as a root, if it does.
pub uninterp spec fn root_refusal(der: Seq<u8>) -> Option<Seq<char>>;

/// Why `rustls` cannot use a list of ECH configurations, if it cannot.
pub uninterp spec fn ech_refusal(list: Seq<u8>) -> Option<Seq<char>>;

/// Why `rustls` does not take a certificate for that of a server of this name, if it does
/// not.
pub uninterp spec fn name_refusal(cert: Seq<u8>, name: Seq<char>) -> Option<Seq<char>>;

/// Why `rustls` cannot serve a chain of certificates with a key, if it cannot.
pub uninterp spec fn chain_refusal(certs: Seq<Seq<u8>>, key: Seq<u8>) -> Option<Seq<char>>;

/// The text of a refusal, if there is one.
pub open spec fn refusal_view(r: Option<String>) -> Option<Seq<char>> {
    match r {
        Some(m) => Some(m@),
        None => None,
    }
}

/// The contents of what was found in PEM data.
pub open spec fn pem_views(items: Seq<Result<Vec<u8>, String>>) -> Seq<Result<Seq<u8>, Seq<char>>> {
    items.map_values(
        |item: Result<Vec<u8>, String>|
            match item {
                Ok(der) => Ok(der@),
                Err(e) => Err(e@),
            },
    )
}

/// Reads PEM data with `rustls_pemfile::certs`, to the end. What it yields depends on the
/// data alone; an error is taken as the text that it displays.
#[verifier::external_body]
fn read_pem(data: &[u8]) -> (items: Vec<Result<Vec<u8>, String>>)
    ensures
        pem_views(items@) == pem_items(data@),
{
    let mut items = Vec::new();
    for cert in rustls_pemfile::certs(&mut &data[..]) {
        items.push(match cert {
            Ok(der) => Ok(der.to_vec()),
            Err(e) => Err(format!("{e}")),
        });
    }
    items
}

/// Adds a certificate to an empty store with `rustls::RootCertStore::add`. Whether that
/// fails, and with which error, depends on the certificate alone; an error is taken as the
/// text that it displays.
#[verifier::external_body]
fn refuse_root(der: &[u8]) -> (r: Option<String>)
    ensures
        refusal_view(r) == root_refusal(der@),
{
    match RootCertStore::empty().add(CertificateDer::from(der)) {
        Ok(()) => None,
        Err(e) => Some(format!("{e}")),
    }
}

/// Reads a list of ECH configurations with `rustls::client::EchConfig::new`, for all
/// suites of its `aws_lc_rs` provider. Whether that fails, and with which error, depends on
/// the list alone; an error is taken as the text that it displays.
#[verifier::external_body]
fn refuse_ech_list(list: &[u8]) -> (r: Option<String>)
    ensures
        refusal_view(r) == ech_refusal(list@),
{
    match EchConfig::new(EchConfigListBytes::from(list), ALL_SUPPORTED_SUITES) {
        Ok(_) => None,
        Err(e) => Some(format!("{e}")),
    }
}

/// Looks for a name in a certificate with `rustls::client::verify_server_name`. Whether
/// that fails, or the name or the certificate cannot be read at all, and with which error,
/// depends on the two alone; an error is taken as the text that it displays.
#[verifier::external_body]
fn refuse_name(cert: &[u8], name: &str) -> (r: Option<String>)
    ensures
        refusal_view(r) == name_refusal(cert@, name@),
{
    let der = CertificateDer::from(cert);
    match (ServerName::try_from(name), ParsedCertificate::try_from(&der)) {
        (Ok(server), Ok(parsed)) => match verify_server_name(&parsed, &server) {
            Ok(()) => None,
            Err(e) => Some(format!("{e}")),
        },
        (Err(e), _) => Some(format!("{e}")),
        (_, Err(e)) => Some(format!("{e}")),
    }
}

/// The contents of certificates.
pub open spec fn chain_view(certs: Seq<Vec<u8>>) -> Seq<Seq<u8>> {
    certs.map_values(|cert: Vec<u8>| cert@)
}

/// Puts certificates and a key, in PKCS#8, together with
/// `rustls::sign::CertifiedKey::from_der` for the `ring` provider, which reads the key and
/// compares its public key with that of the first certificate. Whether that fails, and
/// with which error, depends on them alone, while the generator of the system works; an
/// error is taken as the text that it displays.
#[verifier::external_body]
fn refuse_chain(certs: &Vec<Vec<u8>>, key: &[u8]) -> (r: Option<String>)
    ensures
        refusal_view(r) == chain_refusal(chain_view(certs@), key@),
{
    let chain = certs.iter().map(|cert| CertificateDer::from(cert.clone())).collect();
    let key = PrivatePkcs8KeyDer::from(key.to_vec()).into();
    match CertifiedKey::from_der(chain, key, &rustls::crypto::ring::default_provider()) {
        Ok(_) => None,
        Err(e) => Some(format!("{e}")),
    }
}

/// What became of a section of PEM data.
#[derive(Debug, Clone, PartialEq, Eq)]
pub enum RootItem {
    /// A certificate that is accepted as a root.
    Root(Vec<u8>),
    /// A certificate that is refused, and why.
    Refused(String),
    /// No certificate at all, and why.
    Malformed(String),
}

/// The contents of an item.
pub enum RootItemView {
    Root(Seq<u8>),
    Refused(Seq<char>),
    Malformed(Seq<char>),
}

impl View for RootItem {
    type V = RootItemView;

    open spec fn view(&self) -> RootItemView {
        match self {
            RootItem::Root(der) => RootItemView::Root(der@),
            RootItem::Refused(e) => RootItemView::Refused(e@),
            RootItem::Malformed(e) => RootItemView::Malformed(e@),
        }
    }
}

/// What becomes of a section.
pub open spec fn judged(item: Result<Seq<u8>, Seq<char>>) -> RootItemView {
    match item {
        Err(e) => RootItemView::Malformed(e),
        Ok(der) => match root_refusal(der) {
            Some(e) => RootItemView::Refused(e),
            None => RootItemView::Root(der),
        },
    }
}

/// Whether the first `n` items are roots.
pub open spec fn all_roots(items: Seq<RootItemView>, n: int) -> bool {
    forall|i: int| 0 <= i < n ==> #[trigger] items[i] is Root
}

/// The message about a section that is no root.
pub open spec fn item_message(item: RootItemView) -> Seq<char> {
    match item {
        RootItemView::Malformed(e) => "ошибка разбора PEM: "@ + e,
        RootItemView::Refused(e) => "не удалось добавить корень: "@ + e,
        RootItemView::Root(_) => Seq::<char>::empty(),
    }
}

/// What comes out of a file with these items: all the roots, if there are roots only and
/// at least one; else the message about the first item that is none, or about the file.
pub open spec fn gathered(
    path: Seq<char>,
    items: Seq<RootItemView>,
    r: Result<Vec<Vec<u8>>, String>,
) -> bool {
    match r {
        Ok(roots) => {
            &&& items.len() > 0
            &&& all_roots(items, items.len() as int)
            &&& roots@.len() == items.len()
            &&& forall|i: int|
                0 <= i < items.len() ==> items[i] == RootItemView::Root((#[trigger] roots@[i])@)
        },
        Err(m) => {
            ||| items.len() == 0 && m@ == "в "@ + path + " нет сертификатов"@
            ||| exists|k: int|
                {
                    &&& 0 <= k < items.len()
                    &&& #[trigger] all_roots(items, k)
                    &&& !(items[k] is Root)
                    &&& m@ == item_message(items[k])
                }
        },
    }
}

/// The contents of items.
pub open spec fn item_views(items: Seq<RootItem>) -> Seq<RootItemView> {
    items.map_values(|item: RootItem| item@)
}

/// The roots among the items of a file.
pub fn gather_roots(path: &str, items: Vec<RootItem>) -> (r: Result<Vec<Vec<u8>>, String>)
    ensures
        gathered(path@, item_views(items@), r),
{
    let ghost views = item_views(items@);
    let mut roots: Vec<Vec<u8>> = Vec::new();
    for item in it: items
        invariant
            it.seq() == items@,
            views == item_views(items@),
            roots@.len() == it.index(),
            all_roots(views, it.index()),
            forall|i: int|
                0 <= i < it.index() ==> views[i] == RootItemView::Root((#[trigger] roots@[i])@),
    {
        assert(views[it.index()] == item@);
        match item {
            RootItem::Root(der) => roots.push(der),
            RootItem::Refused(e) => {
                let mut m = "не удалось добавить корень: ".to_owned();
                m.append(e.as_str());
                return Err(m);
            },
            RootItem::Malformed(e) => {
                let mut m = "ошибка разбора PEM: ".to_owned();
                m.append(e.as_str());
                return Err(m);
            },
        }
    }
    if roots.len() == 0 {
        let mut m = "в ".to_owned();
        m.append(path);
        m.append(" нет сертификатов");
        return Err(m);
    }
    Ok(roots)
}

/// The roots, in DER, in the PEM data of a file. There has to be one, and every
/// certificate in it has to be one.
pub fn root_store_from_pem(path: &str, data: &[u8]) -> (r: Result<Vec<Vec<u8>>, String>)
    ensures
        gathered(path@, pem_items(data@).map_values(|item| judged(item)), r),
{
    let found = read_pem(data);
    let ghost views = pem_views(found@);
    let mut items: Vec<RootItem> = Vec::new();
    for cert in it: found
        invariant
            it.seq() == found@,
            views == pem_views(found@),
            items@.len() == it.index(),
            forall|i: int| 0 <= i < it.index() ==> (#[trigger] items@[i])@ == judged(views[i]),
    {
        let ghost view = views[it.index()];
        let item = match cert {
            Ok(der) => match refuse_root(der.as_slice()) {
                Some(e) => RootItem::Refused(e),
                None => RootItem::Root(der),
            },
            Err(e) => RootItem::Malformed(e),
        };
        assert(item@ == judged(view));
        items.push(item);
    }
    assert(item_views(items@) =~= pem_items(data@).map_values(|item| judged(item)));
    gather_roots(path, items)
}

/// Whether a client that finds this PEM in a file finds this certificate alone, and takes it
/// as a root.
pub open spec fn is_root_in(cert: Seq<u8>, pem: Seq<char>) -> bool {
    &&& pem_items(vstd::utf8::encode_utf8(pem)) == seq![Ok::<Seq<u8>, Seq<char>>(cert)]
    &&& root_refusal(cert) is None
}

/// The longest name of a domain.
pub const MAX_DOMAIN_NAME: usize = 253;

/// Why there is no certificate: the generator of the system failed, or the name of the
/// domain is not ASCII.
pub open spec fn is_no_certificate(domain: Seq<char>, why: Seq<char>) -> bool {
    ||| why == "Unspecified ring error"@
    ||| !vstd::utf8::is_ascii_chars(domain) && why == "Invalid IA5String: '"@ + domain + "'"@
}

/// Whether a part of a host name is well-formed: letters, digits and hyphens, the latter
/// not at its ends.
pub open spec fn is_label(s: Seq<char>) -> bool {
    &&& 1 <= s.len() <= 63
    &&& forall|i: int|
        0 <= i < s.len() ==> {
            let c = #[trigger] s[i];
            'a' <= c <= 'z' || 'A' <= c <= 'Z' || '0' <= c <= '9' || c == '-'
        }
    &&& s[0] != '-' && s.last() != '-'
}

/// Whether a text is made of labels with dots between them, the last of which holds more
/// than digits.
pub open spec fn has_labels(s: Seq<char>) -> bool
    decreases s.len(),
{
    let end = text::first_index(s, '.');
    &&& is_label(s.take(end))
    &&& if 0 <= end < s.len() {
        has_labels(s.skip(end + 1))
    } else {
        exists|i: int| 0 <= i < s.len() && !('0' <= #[trigger] s[i] <= '9')
    }
}

/// Whether a text is the name of a host.
pub open spec fn is_host_name(s: Seq<char>) -> bool {
    s.len() <= MAX_DOMAIN_NAME && has_labels(s)
}

/// Whether this is a certificate for a domain, with its own key and its PEM: a client that
/// has the PEM takes the certificate as a root, a server can serve it with the key, and a
/// client that looks for a host of this name accepts it. (The readers of certificates limit
/// their size.)
pub open spec fn is_certificate_for(
    domain: Seq<char>,
    cert: Seq<u8>,
    key: Seq<u8>,
    pem: Seq<char>,
) -> bool {
    &&& vstd::utf8::is_ascii_chars(domain)
    &&& domain.len() <= MAX_DOMAIN_NAME ==> is_root_in(cert, pem) && chain_refusal(
        seq![cert],
        key,
    ) is None
    &&& is_host_name(domain) ==> name_refusal(cert, domain) is None
}

/// Makes a certificate with `rcgen::generate_simple_self_signed`: the certificate and its
/// fresh key, both in DER, and the certificate in PEM. A domain that is not ASCII is
/// refused, and nothing else is, but the generator of the system may fail. For a domain
/// name that is not too long, `rustls_pemfile::certs` reads the certificate back from its
/// PEM, `rustls::RootCertStore::add` takes it, and `rustls::sign::CertifiedKey::from_der`
/// takes it with the key, which is the one in it. The certificate holds the name of the
/// domain, so that `rustls::client::verify_server_name` finds the name of a host. Which key
/// comes is chance.
#[verifier::external_body]
fn make_certificate(domain: &str) -> (r: Result<(Vec<u8>, Vec<u8>, String), String>)
    ensures
        r matches Ok((cert, key, pem)) ==> is_certificate_for(domain@, cert@, key@, pem@),
        r matches Err(why) ==> is_no_certificate(domain@, why@),
{
    match rcgen::generate_simple_self_signed(vec![domain.to_string()]) {
        Ok(ck) => Ok((ck.cert.der().to_vec(), ck.key_pair.serialize_der(), ck.cert.pem())),
        Err(e) => Err(format!("{e}")),
    }
}

/// What comes of an attempt to make a certificate: the same, or the message about it.
pub open spec fn reported(
    made: Result<(Vec<u8>, Vec<u8>, String), String>,
    r: Result<(Vec<u8>, Vec<u8>, String), String>,
) -> bool {
    match made {
        Ok(all) => r == Ok::<(Vec<u8>, Vec<u8>, String), String>(all),
        Err(why) => r matches Err(m) && m@ == "не удалось создать сертификат: "@ + why@,
    }
}

/// Puts the message about a certificate that could not be made in place of the reason.
pub fn report_certificate(made: Result<(Vec<u8>, Vec<u8>, String), String>) -> (r: Result<
    (Vec<u8>, Vec<u8>, String),
    String,
>)
    ensures
        reported(made, r),
{
    match made {
        Ok(all) => Ok(all),
        Err(why) => {
            let mut m = "не удалось создать сертификат: ".to_owned();
            m.append(why.as_str());
            Err(m)
        },
    }
}

/// A certificate for a domain, signed by itself: the certificate and its key, both in DER,
/// and the certificate in PEM.
pub fn self_signed(domain: &str) -> (r: Result<(Vec<u8>, Vec<u8>, String), String>)
    ensures
        r matches Ok((cert, key, pem)) ==> is_certificate_for(domain@, cert@, key@, pem@),
        r matches Err(m) ==> exists|why: Seq<char>| #[trigger]
            is_no_certificate(domain@, why) && m@ == "не удалось создать сертификат: "@ + why,
{
    report_certificate(make_certificate(domain))
}

/// What a server shows of itself in TLS: its certificates, and the key of the first.
#[derive(Debug, Clone, PartialEq, Eq)]
pub struct ServerTls {
    pub certs: Vec<Vec<u8>>,
    pub key: Vec<u8>,
}

/// What comes of certificates and a key that are refused, or are not.
pub open spec fn served(
    certs: Seq<Seq<u8>>,
    key: Seq<u8>,
    refusal: Option<Seq<char>>,
    r: Result<ServerTls, String>,
) -> bool {
    match refusal {
        Some(e) => r matches Err(m) && m@ == e,
        None => r matches Ok(t) && chain_view(t.certs@) == certs && t.key@ == key,
    }
}

/// A server with these certificates and this key, unless they are refused.
pub fn serve_unless_refused(certs: Vec<Vec<u8>>, key: Vec<u8>, refusal: Option<String>) -> (r:
    Result<ServerTls, String>)
    ensures
        served(chain_view(certs@), key@, refusal_view(refusal), r),
{
    match refusal {
        Some(e) => Err(e),
        None => Ok(ServerTls { certs, key }),
    }
}

/// A server with these certificates and this key, in PKCS#8. A key that cannot be read, or
/// is not that of the first certificate, is refused.
pub fn server_config(certs: Vec<Vec<u8>>, key: Vec<u8>) -> (r: Result<ServerTls, String>)
    ensures
        served(chain_view(certs@), key@, chain_refusal(chain_view(certs@), key@), r),
{
    let refusal = refuse_chain(&certs, key.as_slice());
    serve_unless_refused(certs, key, refusal)
}

/// Why a client that looks for a server of this name does not accept a certificate, if it
/// does not.
pub fn name_objection(cert: &[u8], name: &str) -> (r: Option<String>)
    ensures
        refusal_view(r) == name_refusal(cert@, name@),
{
    refuse_name(cert, name)
}

/// What was made for a domain is of use: a server can serve the certificate with the key, a
/// client that was given the PEM trusts exactly this certificate, and it accepts it for a
/// host of that name.
pub proof fn law_own_certificate_is_trusted(
    domain: Seq<char>,
    cert: Seq<u8>,
    key: Seq<u8>,
    pem: Seq<char>,
    path: Seq<char>,
    server: Result<ServerTls, String>,
    client: Result<Vec<Vec<u8>>, String>,
)
    requires
        domain.len() <= MAX_DOMAIN_NAME,
        is_certificate_for(domain, cert, key, pem),
        served(seq![cert], key, chain_refusal(seq![cert], key), server),
        gathered(
            path,
            pem_items(vstd::utf8::encode_utf8(pem)).map_values(|item| judged(item)),
            client,
        ),
    ensures
        server matches Ok(t) && chain_view(t.certs@) == seq![cert] && t.key@ == key,
        client matches Ok(roots) && roots@.len() == 1 && roots@[0]@ == cert,
        is_host_name(domain) ==> name_refusal(cert, domain) is None,
{
    let items = pem_items(vstd::utf8::encode_utf8(pem)).map_values(|item| judged(item));
    assert(items[0] == RootItemView::Root(cert));
    if client is Ok {
        assert(items[0] == RootItemView::Root(client->Ok_0@[0]@));
    }
}

/// How a client hides the name of its server in TLS.
#[derive(Debug, Clone, PartialEq, Eq)]
pub enum TlsMode {
    /// With the configuration of a carrier.
    Ech(Vec<u8>),
    /// Not at all, but looking as if.
    Grease,
    /// Not at all.
    Plain,
}

/// What comes of a list of ECH configurations that is refused, or is not.
pub open spec fn ech_outcome(
    list: Seq<u8>,
    refusal: Option<Seq<char>>,
    r: Result<TlsMode, String>,
) -> bool {
    match refusal {
        Some(e) => r matches Err(m) && m@ == e,
        None => r matches Ok(TlsMode::Ech(l)) && l@ == list,
    }
}

/// ECH with this list, unless it is refused.
pub fn ech_unless_refused(list: Vec<u8>, refusal: Option<String>) -> (r: Result<TlsMode, String>)
    ensures
        ech_outcome(list@, refusal_view(refusal), r),
{
    match refusal {
        Some(e) => Err(e),
        None => Ok(TlsMode::Ech(list)),
    }
}

/// ECH with the list of a carrier. A list in which `rustls` finds no configuration that it
/// can use is refused.
pub fn client_config_ech(list: Vec<u8>) -> (r: Result<TlsMode, String>)
    ensures
        ech_outcome(list@, ech_refusal(list@), r),
{
    let refusal = refuse_ech_list(list.as_slice());
    ech_unless_refused(list, refusal)
}

/// What comes out of a file of roots: all its certificates, in order, exactly if there is one
/// and each is accepted as a root; else a message.
pub proof fn law_roots_of_file(
    path: Seq<char>,
    found: Seq<Result<Seq<u8>, Seq<char>>>,
    r: Result<Vec<Vec<u8>>, String>,
)
    requires
        gathered(path, found.map_values(|item| judged(item)), r),
    ensures
        r is Ok <==> found.len() > 0 && forall|i: int|
            0 <= i < found.len() ==> (#[trigger] found[i] matches Ok(der) && root_refusal(der) is None),
        r matches Ok(roots) ==> roots@.len() == found.len() && forall|i: int|
            0 <= i < found.len() ==> found[i] == Ok::<Seq<u8>, Seq<char>>((#[trigger] roots@[i])@),
        found.len() == 0 ==> (r matches Err(m) && m@ == "в "@ + path + " нет сертификатов"@),
{
    let items = found.map_values(|item| judged(item));
    assert forall|i: int| 0 <= i < found.len() implies #[trigger] items[i] == judged(found[i]) by {}
    if r is Ok {
        let roots = r->Ok_0;
        assert forall|i: int| 0 <= i < found.len() implies (#[trigger] found[i] matches Ok(der)
            && root_refusal(der) is None) && found[i] == Ok::<Seq<u8>, Seq<char>>(roots@[i]@) by {
            assert(items[i] == RootItemView::Root(roots@[i]@));
        }
        assert forall|i: int| 0 <= i < found.len() implies found[i] == Ok::<Seq<u8>, Seq<char>>(
            (#[trigger] roots@[i])@,
        ) by {
            assert(found[i] is Ok);
        }
    } else if found.len() > 0 {
        let k = choose|k: int|
            {
                &&& 0 <= k < items.len()
                &&& #[trigger] all_roots(items, k)
                &&& !(items[k] is Root)
                &&& r->Err_0@ == item_message(items[k])
            };
        assert(items[k] == judged(found[k]));
        assert(!(found[k] matches Ok(der) && root_refusal(der) is None));
    }
}

/// What is said of a file with a bad root: the first section that cannot be read, or the first
/// certificate that is refused, whichever comes first, with the reason.
pub proof fn law_first_bad_root_is_told(
    path: Seq<char>,
    found: Seq<Result<Seq<u8>, Seq<char>>>,
    r: Result<Vec<Vec<u8>>, String>,
    k: int,
)
    requires
        gathered(path, found.map_values(|item| judged(item)), r),
        0 <= k < found.len(),
        forall|i: int|
            0 <= i < k ==> (#[trigger] found[i] matches Ok(der) && root_refusal(der) is None),
    ensures
        found[k] matches Err(why) ==> (r matches Err(m) && m@ == "ошибка разбора PEM: "@ + why),
        found[k] matches Ok(der) ==> (root_refusal(der) matches Some(why) ==> (r matches Err(m) && m@
            == "не удалось добавить корень: "@ + why)),
{
    let items = found.map_values(|item| judged(item));
    assert forall|i: int| 0 <= i < k implies #[trigger] items[i] is Root by {
        assert(found[i] matches Ok(der) && root_refusal(der) is None);
    }
    assert(items[k] == judged(found[k]));
    if !(items[k] is Root) {
        if r is Ok {
            assert(items[k] is Root);
        }
        let j = choose|j: int|
            {
                &&& 0 <= j < items.len()
                &&& #[trigger] all_roots(items, j)
                &&& !(items[j] is Root)
                &&& r->Err_0@ == item_message(items[j])
            };
        if j < k {
            assert(items[j] is Root);
        }
        if k < j {
            assert(items[k] is Root);
        }
    }
}

/// What is refused comes back as the reason, and what is not as it was given: a list of ECH
/// configurations, certificates with their key, a certificate that was made.
pub proof fn law_refused_or_as_given(
    list: Seq<u8>,
    certs: Seq<Seq<u8>>,
    key: Seq<u8>,
    refusal: Option<Seq<char>>,
    mode: Result<TlsMode, String>,
    server: Result<ServerTls, String>,
    made: Result<(Vec<u8>, Vec<u8>, String), String>,
    told: Result<(Vec<u8>, Vec<u8>, String), String>,
)
    requires
        ech_outcome(list, refusal, mode),
        served(certs, key, refusal, server),
        reported(made, told),
    ensures
        refusal is None ==> (mode matches Ok(TlsMode::Ech(l)) && l@ == list),
        refusal is None ==> (server matches Ok(t) && chain_view(t.certs@) == certs && t.key@ == key),
        refusal matches Some(why) ==> (mode matches Err(m) && m@ == why),
        refusal matches Some(why) ==> (server matches Err(m) && m@ == why),
        made is Ok ==> told == made,
        made matches Err(why) ==> (told matches Err(m) && m@ == "не удалось создать сертификат: "@
            + why@),
{
}

} // verus!
