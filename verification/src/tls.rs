//! Reading the certificates and the private key of a TLS identity out of
//! PEM text, one PEM section at a time.
use rustls_pemfile::Item;
use vstd::prelude::*;

use crate::error::{MpcError, Result};

verus! {

/// One PEM section, by its label, with its DER contents.
pub enum PemItem {
    Certificate(Vec<u8>),
    RsaKey(Vec<u8>),
    Pkcs8Key(Vec<u8>),
    EcKey(Vec<u8>),
    Crl(Vec<u8>),
    Other,
}

pub ghost enum PemItemView {
    Certificate(Seq<u8>),
    RsaKey(Seq<u8>),
    Pkcs8Key(Seq<u8>),
    EcKey(Seq<u8>),
    Crl(Seq<u8>),
    Other,
}

impl View for PemItem {
    type V = PemItemView;

    open spec fn view(&self) -> PemItemView {
        match self {
            PemItem::Certificate(d) => PemItemView::Certificate(d@),
            PemItem::RsaKey(d) => PemItemView::RsaKey(d@),
            PemItem::Pkcs8Key(d) => PemItemView::Pkcs8Key(d@),
            PemItem::EcKey(d) => PemItemView::EcKey(d@),
            PemItem::Crl(d) => PemItemView::Crl(d@),
            PemItem::Other => PemItemView::Other,
        }
    }
}

/// What reading one PEM section from the front of `rest` gives: the section
/// (none at the end of the text) and the length of what is left, or the
/// text of the error.
pub uninterp spec fn pem_next(rest: Seq<u8>) -> core::result::Result<(Option<PemItemView>, nat), Seq<char>>;

pub open spec fn pem_read_view(r: core::result::Result<(Option<PemItem>, usize), String>) -> core::result::Result<(Option<PemItemView>, nat), Seq<char>> {
    match r {
        Ok((Some(item), rem)) => Ok((Some(item@), rem as nat)),
        Ok((None, rem)) => Ok((None, rem as nat)),
        Err(s) => Err(s@),
    }
}

/// `rustls_pemfile::read_one` on the byte slice `rest`: the next section and
/// how many bytes are left after it, or the error's text. It only consumes
/// from the front, and a section is returned only after at least one line
/// was read.
#[verifier::external_body]
fn pem_read_one(rest: &[u8]) -> (r: core::result::Result<(Option<PemItem>, usize), String>)
    ensures
        pem_read_view(r) == pem_next(rest@),
        r matches Ok((_, rem)) ==> rem <= rest@.len(),
        r matches Ok((Some(_), rem)) ==> rem < rest@.len(),
{
    let mut rd = rest;
    match rustls_pemfile::read_one(&mut rd) {
        Ok(Some(item)) => Ok((Some(match item {
            Item::X509Certificate(d) => PemItem::Certificate(d),
            Item::RSAKey(d) => PemItem::RsaKey(d),
            Item::PKCS8Key(d) => PemItem::Pkcs8Key(d),
            Item::ECKey(d) => PemItem::EcKey(d),
            Item::Crl(d) => PemItem::Crl(d),
            _ => PemItem::Other,
        }), rd.len())),
        Ok(None) => Ok((None, rd.len())),
        Err(e) => Err(e.to_string()),
    }
}

/// The DER certificates of the PEM text `rest`, in order, or the text of the
/// first read error.
pub open spec fn pem_certs(rest: Seq<u8>) -> core::result::Result<Seq<Seq<u8>>, Seq<char>>
    decreases rest.len(),
{
    match pem_next(rest) {
        Err(e) => Err(e),
        Ok((None, _)) => Ok(Seq::empty()),
        Ok((Some(item), rem)) => if rem < rest.len() {
            match pem_certs(rest.subrange(rest.len() - rem, rest.len() as int)) {
                Err(e) => Err(e),
                Ok(tail) => match item {
                    PemItemView::Certificate(d) => Ok(seq![d] + tail),
                    _ => Ok(tail),
                },
            }
        } else {
            Ok(Seq::empty())
        },
    }
}

/// A private key, by its encoding.
pub enum PrivateKey {
    Pkcs8(Vec<u8>),
    Pkcs1(Vec<u8>),
}

pub ghost enum PrivateKeyView {
    Pkcs8(Seq<u8>),
    Pkcs1(Seq<u8>),
}

impl View for PrivateKey {
    type V = PrivateKeyView;

    open spec fn view(&self) -> PrivateKeyView {
        match self {
            PrivateKey::Pkcs8(d) => PrivateKeyView::Pkcs8(d@),
            PrivateKey::Pkcs1(d) => PrivateKeyView::Pkcs1(d@),
        }
    }
}

/// The first PKCS#8 or PKCS#1 key of the PEM text `rest`, if any, or the
/// text of a read error met before it.
pub open spec fn pem_first_key(rest: Seq<u8>) -> core::result::Result<Option<PrivateKeyView>, Seq<char>>
    decreases rest.len(),
{
    match pem_next(rest) {
        Err(e) => Err(e),
        Ok((None, _)) => Ok(None),
        Ok((Some(item), rem)) => match item {
            PemItemView::Pkcs8Key(d) => Ok(Some(PrivateKeyView::Pkcs8(d))),
            PemItemView::RsaKey(d) => Ok(Some(PrivateKeyView::Pkcs1(d))),
            _ => if rem < rest.len() {
                pem_first_key(rest.subrange(rest.len() - rem, rest.len() as int))
            } else {
                Ok(None)
            },
        },
    }
}

pub open spec fn with_prefix(
    prefix: Seq<Seq<u8>>,
    r: core::result::Result<Seq<Seq<u8>>, Seq<char>>,
) -> core::result::Result<Seq<Seq<u8>>, Seq<char>> {
    match r {
        Err(e) => Err(e),
        Ok(t) => Ok(prefix + t),
    }
}

pub open spec fn der_views(v: Seq<Vec<u8>>) -> Seq<Seq<u8>> {
    v.map_values(|d: Vec<u8>| d@)
}

/// The certificates of a PEM text; at least one is required.
pub fn parse_certs(pem: &[u8]) -> (r: Result<Vec<Vec<u8>>>)
    ensures
        pem_certs(pem@) matches Err(e) ==> (r matches Err(MpcError::Tls(s)) && s@ == e),
        pem_certs(pem@) matches Ok(c) ==> (c.len() == 0 ==> (r matches Err(MpcError::Tls(s))
            && s@ == "no certificate found in PEM"@)) && (c.len() > 0 ==> (r matches Ok(v)
            && der_views(v@) == c)),
{
    let mut certs: Vec<Vec<u8>> = Vec::new();
    let mut pos: usize = 0;
    assert(pem@.subrange(0, pem@.len() as int) =~= pem@);
    assert(with_prefix(der_views(certs@), pem_certs(pem@)) =~~= pem_certs(pem@));
    loop
        invariant
            pos <= pem@.len(),
            pem_certs(pem@) == with_prefix(
                der_views(certs@),
                pem_certs(pem@.subrange(pos as int, pem@.len() as int)),
            ),
        decreases pem@.len() - pos,
    {
        let rest = vstd::slice::slice_subrange(pem, pos, pem.len());
        let ghost rest_view = pem@.subrange(pos as int, pem@.len() as int);
        assert(rest@ == rest_view);
        match pem_read_one(rest) {
            Err(e) => {
                return Err(MpcError::Tls(e));
            },
            Ok((None, _)) => {
                assert(der_views(certs@) + Seq::<Seq<u8>>::empty() =~= der_views(certs@));
                if certs.len() == 0 {
                    return Err(MpcError::Tls("no certificate found in PEM".to_string()));
                }
                return Ok(certs);
            },
            Ok((Some(item), rem)) => {
                let ghost next_pos = pem@.len() - rem;
                let ghost before = certs@;
                assert(pem@.subrange(next_pos, pem@.len() as int) =~= rest_view.subrange(
                    rest_view.len() - rem,
                    rest_view.len() as int,
                ));
                match item {
                    PemItem::Certificate(d) => {
                        let ghost dv = d@;
                        certs.push(d);
                        assert(der_views(certs@) =~= der_views(before).push(dv));
                        assert forall|t: Seq<Seq<u8>>| #![auto]
                            der_views(before) + (seq![dv] + t) == der_views(certs@) + t by {
                            assert(der_views(before) + (seq![dv] + t) =~= der_views(certs@) + t);
                        }
                    },
                    _ => {},
                }
                pos = pem.len() - rem;
            },
        }
    }
}

/// The first PKCS#8 or PKCS#1 private key of a PEM text.
pub fn parse_key(pem: &[u8]) -> (r: Result<PrivateKey>)
    ensures
        pem_first_key(pem@) matches Err(e) ==> (r matches Err(MpcError::Tls(s)) && s@ == e),
        pem_first_key(pem@) matches Ok(None) ==> (r matches Err(MpcError::Tls(s)) && s@
            == "no private key found in PEM"@),
        pem_first_key(pem@) matches Ok(Some(k)) ==> (r matches Ok(key) && key@ == k),
{
    let mut pos: usize = 0;
    assert(pem@.subrange(0, pem@.len() as int) =~= pem@);
    loop
        invariant
            pos <= pem@.len(),
            pem_first_key(pem@) == pem_first_key(pem@.subrange(pos as int, pem@.len() as int)),
        decreases pem@.len() - pos,
    {
        let rest = vstd::slice::slice_subrange(pem, pos, pem.len());
        let ghost rest_view = pem@.subrange(pos as int, pem@.len() as int);
        assert(rest@ == rest_view);
        match pem_read_one(rest) {
            Err(e) => {
                return Err(MpcError::Tls(e));
            },
            Ok((None, _)) => {
                return Err(MpcError::Tls("no private key found in PEM".to_string()));
            },
            Ok((Some(item), rem)) => {
                match item {
                    PemItem::Pkcs8Key(key) => {
                        return Ok(PrivateKey::Pkcs8(key));
                    },
                    PemItem::RsaKey(key) => {
                        return Ok(PrivateKey::Pkcs1(key));
                    },
                    _ => {},
                }
                let ghost next_pos = pem@.len() - rem;
                assert(pem@.subrange(next_pos, pem@.len() as int) =~= rest_view.subrange(
                    rest_view.len() - rem,
                    rest_view.len() as int,
                ));
                pos = pem.len() - rem;
            },
        }
    }
}

/// Reading certificates goes through every section: an error is reported,
/// the end of the text gives no more certificates, a certificate section is
/// kept in front of those that follow it, and any other section is skipped.
pub proof fn lemma_pem_certs_steps(rest: Seq<u8>)
    ensures
        pem_next(rest) matches Err(e) ==> pem_certs(rest) == Err::<Seq<Seq<u8>>, Seq<char>>(e),
        pem_next(rest) matches Ok((None, _)) ==> pem_certs(rest) == Ok::<
            Seq<Seq<u8>>,
            Seq<char>,
        >(Seq::empty()),
        ({
            let n = pem_next(rest);
            n is Ok && n->Ok_0.0 is Some && n->Ok_0.1 < rest.len() ==> {
                let item = n->Ok_0.0->Some_0;
                let rem = n->Ok_0.1;
                let tail = pem_certs(rest.subrange(rest.len() - rem, rest.len() as int));
                &&& (item is Certificate ==> pem_certs(rest) == with_prefix(
                    seq![item->Certificate_0],
                    tail,
                ))
                &&& (!(item is Certificate) ==> pem_certs(rest) == tail)
            }
        }),
{

}

/// Looking for the key goes through the sections in order: an error is
/// reported, the end of the text has no key, a PKCS#8 or PKCS#1 section is
/// the answer, and any other section is skipped without changing it.
pub proof fn lemma_pem_first_key_steps(rest: Seq<u8>)
    ensures
        pem_next(rest) matches Err(e) ==> pem_first_key(rest) == Err::<
            Option<PrivateKeyView>,
            Seq<char>,
        >(e),
        pem_next(rest) matches Ok((None, _)) ==> pem_first_key(rest) == Ok::<
            Option<PrivateKeyView>,
            Seq<char>,
        >(None),
        pem_next(rest) matches Ok((Some(PemItemView::Pkcs8Key(d)), _)) ==> pem_first_key(rest)
            == Ok::<Option<PrivateKeyView>, Seq<char>>(Some(PrivateKeyView::Pkcs8(d))),
        pem_next(rest) matches Ok((Some(PemItemView::RsaKey(d)), _)) ==> pem_first_key(rest)
            == Ok::<Option<PrivateKeyView>, Seq<char>>(Some(PrivateKeyView::Pkcs1(d))),
        ({
            let n = pem_next(rest);
            n is Ok && n->Ok_0.0 is Some && !(n->Ok_0.0->Some_0 is Pkcs8Key) && !(
            n->Ok_0.0->Some_0 is RsaKey) && n->Ok_0.1 < rest.len() ==> pem_first_key(rest)
                == pem_first_key(rest.subrange(rest.len() - n->Ok_0.1, rest.len() as int))
        }),
{
}

} // verus!
