//! What is read from the files with certificates and keys, section by section.
use crate::wire::error::WireError;
use crate::wire::tls::{
    byte_views, certs_among, keys_among, pem_first, read_certs, read_private_key, sections_in,
    Section, SectionView,
};
use vstd::prelude::*;

verus! {

/// The certificates of a file are those of its sections, in their order: that of the
/// first section, where it is one, and then those of what stands behind it. A file
/// with a malformed section gives none.
pub proof fn law_certificates_are_read_in_order(
    pem: &[u8],
    behind: &[u8],
    section: SectionView,
    r: Result<Vec<Vec<u8>>, WireError>,
    s: Result<Vec<Vec<u8>>, WireError>,
)
    requires
        call_ensures(read_certs, (pem,), r),
        call_ensures(read_certs, (behind,), s),
        behind@.len() < pem@.len(),
    ensures
        pem_first(pem@) == Ok::<Option<(SectionView, Seq<u8>)>, Seq<char>>(None) ==> (r matches Ok(
            v,
        ) && v@.len() == 0),
        pem_first(pem@) is Err ==> r is Err,
        pem_first(pem@) == Ok::<Option<(SectionView, Seq<u8>)>, Seq<char>>(
            Some((section, behind@)),
        ) ==> {
            &&& r is Ok <==> s is Ok
            &&& r is Ok ==> match section {
                SectionView::Certificate(d) => byte_views(r->Ok_0@) == seq![d] + byte_views(
                    s->Ok_0@,
                ),
                _ => byte_views(r->Ok_0@) == byte_views(s->Ok_0@),
            }
        },
{
    if pem_first(pem@) == Ok::<Option<(SectionView, Seq<u8>)>, Seq<char>>(None) {
        assert(certs_among(Seq::empty()) =~= Seq::<Seq<u8>>::empty());
        assert(byte_views(r->Ok_0@).len() == r->Ok_0@.len());
    }
    if pem_first(pem@) == Ok::<Option<(SectionView, Seq<u8>)>, Seq<char>>(
        Some((section, behind@)),
    ) && s is Ok {
        let more = sections_in(behind@)->Ok_0;
        assert((seq![section] + more).skip(1) =~= more);
        assert((seq![section] + more)[0] == section);
    }
}

/// The key of a file is that of its first section that is a key. A file with a
/// malformed section gives none, and neither does one without a key.
pub proof fn law_the_first_key_is_read(
    pem: &[u8],
    behind: &[u8],
    section: SectionView,
    r: Result<Section, WireError>,
    s: Result<Section, WireError>,
    certs: Result<Vec<Vec<u8>>, WireError>,
)
    requires
        call_ensures(read_private_key, (pem,), r),
        call_ensures(read_private_key, (behind,), s),
        call_ensures(read_certs, (behind,), certs),
        behind@.len() < pem@.len(),
    ensures
        pem_first(pem@) == Ok::<Option<(SectionView, Seq<u8>)>, Seq<char>>(None) ==> r is Err,
        pem_first(pem@) is Err ==> r is Err,
        pem_first(pem@) == Ok::<Option<(SectionView, Seq<u8>)>, Seq<char>>(
            Some((section, behind@)),
        ) ==> {
            if section is Pkcs1 || section is Pkcs8 || section is Sec1 {
                if certs is Ok {
                    r matches Ok(k) && k@ == section
                } else {
                    r is Err
                }
            } else {
                &&& r is Ok <==> s is Ok
                &&& r is Ok ==> r->Ok_0@ == s->Ok_0@
            }
        },
{
    if pem_first(pem@) == Ok::<Option<(SectionView, Seq<u8>)>, Seq<char>>(None) {
        assert(keys_among(Seq::empty()) =~= Seq::<SectionView>::empty());
    }
    if pem_first(pem@) == Ok::<Option<(SectionView, Seq<u8>)>, Seq<char>>(
        Some((section, behind@)),
    ) && certs is Ok {
        let more = sections_in(behind@)->Ok_0;
        assert((seq![section] + more).skip(1) =~= more);
        assert((seq![section] + more)[0] == section);
    }
}

} // verus!
