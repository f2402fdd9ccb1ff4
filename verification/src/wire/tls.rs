//! The certificate and the private key of a server, as PEM files hold them.
use crate::wire::error::{WireError, WireErrorView};
use vstd::prelude::*;

verus! {

/// A section of a PEM file, with the DER bytes in it where a server needs them.
#[derive(Debug)]
pub enum Section {
    /// A certificate.
    Certificate(Vec<u8>),
    /// An RSA private key.
    Pkcs1(Vec<u8>),
    /// A private key of any kind.
    Pkcs8(Vec<u8>),
    /// A private key on an elliptic curve.
    Sec1(Vec<u8>),
    /// Anything else.
    Other,
}

/// The contents of a `Section`.
#[verifier::ext_equal]
pub enum SectionView {
    Certificate(Seq<u8>),
    Pkcs1(Seq<u8>),
    Pkcs8(Seq<u8>),
    Sec1(Seq<u8>),
    Other,
}

impl View for Section {
    type V = SectionView;

    open spec fn view(&self) -> SectionView {
        match *self {
            Section::Certificate(d) => SectionView::Certificate(d@),
            Section::Pkcs1(d) => SectionView::Pkcs1(d@),
            Section::Pkcs8(d) => SectionView::Pkcs8(d@),
            Section::Sec1(d) => SectionView::Sec1(d@),
            Section::Other => SectionView::Other,
        }
    }
}

impl SectionView {
    /// Whether the section is a private key.
    pub open spec fn is_key(self) -> bool {
        self is Pkcs1 || self is Pkcs8 || self is Sec1
    }
}

/// The first section of a PEM file, and what stands behind it; nothing where no
/// section is left, and what is wrong where one is malformed.
pub uninterp spec fn pem_first(bytes: Seq<u8>) -> Result<
    Option<(SectionView, Seq<u8>)>,
    Seq<char>,
>;

/// `rustls_pemfile::read_one_from_slice`, with the error as the text of the
/// `std::io::Error` that it turns into. What stands behind a section is shorter
/// than the whole.
#[verifier::external_body]
fn take_section<'a>(bytes: &'a [u8]) -> (r: Result<Option<(Section, &'a [u8])>, String>)
    ensures
        match r {
            Ok(Some(s)) => pem_first(bytes@) == Ok::<Option<(SectionView, Seq<u8>)>, Seq<char>>(
                Some((s.0@, s.1@)),
            ) && s.1@.len() < bytes@.len(),
            Ok(None) => pem_first(bytes@) == Ok::<Option<(SectionView, Seq<u8>)>, Seq<char>>(None),
            Err(e) => pem_first(bytes@) == Err::<Option<(SectionView, Seq<u8>)>, Seq<char>>(e@),
        },
{
    let found = rustls_pemfile::read_one_from_slice(bytes).map_err(std::io::Error::from);
    let owned = |item| match item {
        rustls_pemfile::Item::X509Certificate(d) => Section::Certificate(d.to_vec()),
        rustls_pemfile::Item::Pkcs1Key(d) => Section::Pkcs1(d.secret_pkcs1_der().to_vec()),
        rustls_pemfile::Item::Pkcs8Key(d) => Section::Pkcs8(d.secret_pkcs8_der().to_vec()),
        rustls_pemfile::Item::Sec1Key(d) => Section::Sec1(d.secret_sec1_der().to_vec()),
        _ => Section::Other,
    };
    Ok(found.map_err(|e| e.to_string())?.map(|(item, rest)| (owned(item), rest)))
}

/// The sections of a PEM file, in order; what is wrong with the first malformed
/// one where there is one.
pub open spec fn sections_in(bytes: Seq<u8>) -> Result<Seq<SectionView>, Seq<char>>
    decreases bytes.len(),
{
    match pem_first(bytes) {
        Ok(Some((s, rest))) => if rest.len() < bytes.len() {
            match sections_in(rest) {
                Ok(more) => Ok(seq![s] + more),
                Err(e) => Err(e),
            }
        } else {
            Ok(seq![s])
        },
        Ok(None) => Ok(Seq::empty()),
        Err(e) => Err(e),
    }
}

/// The private keys among sections, in order.
pub open spec fn keys_among(s: Seq<SectionView>) -> Seq<SectionView>
    decreases s.len(),
{
    if s.len() == 0 {
        Seq::empty()
    } else if s[0].is_key() {
        seq![s[0]] + keys_among(s.skip(1))
    } else {
        keys_among(s.skip(1))
    }
}

/// The certificates among sections, in order.
pub open spec fn certs_among(s: Seq<SectionView>) -> Seq<Seq<u8>>
    decreases s.len(),
{
    if s.len() == 0 {
        Seq::empty()
    } else {
        match s[0] {
            SectionView::Certificate(d) => seq![d] + certs_among(s.skip(1)),
            _ => certs_among(s.skip(1)),
        }
    }
}

/// Reads all sections of a PEM file.
fn read_sections(pem: &[u8]) -> (r: Result<Vec<Section>, String>)
    ensures
        match r {
            Ok(v) => sections_in(pem@) == Ok::<Seq<SectionView>, Seq<char>>(section_views(v@)),
            Err(e) => sections_in(pem@) == Err::<Seq<SectionView>, Seq<char>>(e@),
        },
{
    let mut rest: &[u8] = pem;
    let mut found: Vec<Section> = Vec::new();
    assert(section_views(found@) =~= Seq::<SectionView>::empty());
    proof {
        match sections_in(pem@) {
            Ok(s) => assert(Seq::<SectionView>::empty() + s =~= s),
            Err(_) => {},
        }
    }
    loop
        invariant
            sections_in(pem@) == (match sections_in(rest@) {
                Ok(more) => Ok::<Seq<SectionView>, Seq<char>>(section_views(found@) + more),
                Err(e) => Err::<Seq<SectionView>, Seq<char>>(e),
            }),
        decreases rest@.len(),
    {
        match take_section(rest) {
            Ok(Some((section, behind))) => {
                let ghost before = section_views(found@);
                found.push(section);
                proof {
                    assert(section_views(found@) =~= before.push(section@));
                    match sections_in(behind@) {
                        Ok(more) => assert(before + (seq![section@] + more) =~= before.push(
                            section@,
                        ) + more),
                        Err(_) => {},
                    }
                }
                rest = behind;
            },
            Ok(None) => {
                assert(section_views(found@) + Seq::<SectionView>::empty() =~= section_views(
                    found@,
                ));
                return Ok(found);
            },
            Err(e) => {
                return Err(e);
            },
        }
    }
}

/// The contents of sections.
pub open spec fn section_views(s: Seq<Section>) -> Seq<SectionView> {
    Seq::new(s.len(), |i: int| s[i]@)
}

/// Reads the private key of a server: the first one in a file of which every
/// section is in order.
pub fn read_private_key(pem: &[u8]) -> (r: Result<Section, WireError>)
    ensures
        match (sections_in(pem@), r) {
            (Ok(s), Ok(k)) => keys_among(s).len() > 0 && k@ == keys_among(s)[0],
            (Ok(s), Err(e)) => keys_among(s).len() == 0 && e@ == WireErrorView::Tls(
                "no private key found in key file"@,
            ),
            (Err(why), Err(e)) => e@ == WireErrorView::Tls("failed to parse key file: "@ + why),
            (Err(_), Ok(_)) => false,
        },
{
    let mut sections = match read_sections(pem) {
        Ok(v) => v,
        Err(e) => {
            return Err(
                WireError::Tls("failed to parse key file: ".to_owned().concat(e.as_str())),
            );
        },
    };
    let ghost all = section_views(sections@);
    let mut i: usize = 0;
    assert(all.skip(0) =~= all);
    while i < sections.len()
        invariant
            i <= sections@.len(),
            all == section_views(sections@),
            keys_among(all.skip(i as int)) == keys_among(all),
            sections_in(pem@) == Ok::<Seq<SectionView>, Seq<char>>(all),
        decreases sections@.len() - i,
    {
        let ghost s = all.skip(i as int);
        assert(s[0] == sections@[i as int]@);
        assert(s.skip(1) =~= all.skip(i + 1));
        let is_key = match &sections[i] {
            Section::Pkcs1(_) => true,
            Section::Pkcs8(_) => true,
            Section::Sec1(_) => true,
            _ => false,
        };
        if is_key {
            return Ok(sections.remove(i));
        }
        i = i + 1;
    }
    Err(WireError::Tls("no private key found in key file".to_owned()))
}

/// The contents of byte strings.
pub open spec fn byte_views(s: Seq<Vec<u8>>) -> Seq<Seq<u8>> {
    Seq::new(s.len(), |i: int| s[i]@)
}

/// Reads the certificates of a server, from a file of which every section is in
/// order.
pub fn read_certs(pem: &[u8]) -> (r: Result<Vec<Vec<u8>>, WireError>)
    ensures
        match (sections_in(pem@), r) {
            (Ok(s), Ok(certs)) => byte_views(certs@) == certs_among(s),
            (Ok(_), Err(_)) => false,
            (Err(why), Err(e)) => e@ == WireErrorView::Tls("failed to parse certs: "@ + why),
            (Err(_), Ok(_)) => false,
        },
{
    let sections = match read_sections(pem) {
        Ok(v) => v,
        Err(e) => {
            return Err(WireError::Tls("failed to parse certs: ".to_owned().concat(e.as_str())));
        },
    };
    let ghost all = section_views(sections@);
    let mut certs: Vec<Vec<u8>> = Vec::new();
    let mut i: usize = 0;
    assert(all.skip(0) =~= all);
    assert(byte_views(certs@) + certs_among(all) =~= certs_among(all));
    while i < sections.len()
        invariant
            i <= sections@.len(),
            all == section_views(sections@),
            byte_views(certs@) + certs_among(all.skip(i as int)) == certs_among(all),
            sections_in(pem@) == Ok::<Seq<SectionView>, Seq<char>>(all),
        decreases sections@.len() - i,
    {
        let ghost before = byte_views(certs@);
        let ghost s = all.skip(i as int);
        assert(s[0] == sections@[i as int]@);
        assert(s.skip(1) =~= all.skip(i + 1));
        if let Section::Certificate(der) = &sections[i] {
            certs.push(der.clone());
            proof {
                assert(byte_views(certs@) =~= before.push(der@));
                assert(before + (seq![der@] + certs_among(all.skip(i + 1))) =~= before.push(der@)
                    + certs_among(all.skip(i + 1)));
            }
        }
        i = i + 1;
    }
    assert(byte_views(certs@) + certs_among(all.skip(i as int)) =~= byte_views(certs@));
    Ok(certs)
}

} // verus!
