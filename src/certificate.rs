use crate::domains::{domains_changed, domains_differ};
use crate::error::{Category, CertError};
use crate::text::same_text;
use vstd::prelude::*;

verus! {

/// What the proxy's certificate layer read out of a stored PEM pair: the
/// names the certificate covers and whether it passed its own validity
/// check (it parses, is within its validity period and matches its key).
#[derive(Clone, Debug)]
pub struct Certificate {
    pub domains: Vec<String>,
    pub valid: bool,
}

impl Certificate {
    /// Whether the certificate passed its own validity check.
    pub fn valid(&self) -> (r: bool)
        ensures
            r == self.valid,
    {
        self.valid
    }
}

/// One named certificate of the proxy's configuration.
#[derive(Clone, Debug)]
pub struct CertificateRecord {
    pub name: String,
    pub tls_cert: Option<String>,
    pub tls_key: Option<String>,
    /// The parsed form of `tls_cert` and `tls_key`; `None` where they are
    /// absent, do not parse, or have not been parsed since they changed.
    pub material: Option<Certificate>,
}

impl CertificateRecord {
    /// A record that lacks either PEM text has no parsed material.
    pub open spec fn wf(self) -> bool {
        (self.tls_cert is None || self.tls_key is None) ==> self.material is None
    }
}

/// The certificates of a configuration: each record well formed, and no
/// two records with the same name.
pub open spec fn records_wf(records: Seq<CertificateRecord>) -> bool {
    &&& forall|i: int| 0 <= i < records.len() ==> (#[trigger] records[i]).wf()
    &&& forall|i: int, j: int|
        0 <= i < j < records.len() ==> (#[trigger] records[i]).name@ != (#[trigger] records[j]).name@
}

/// Whether the certificates of a configuration are well formed.
pub fn records_valid(records: &Vec<CertificateRecord>) -> (r: bool)
    ensures
        r == records_wf(records@),
{
    let n = records.len();
    let mut i: usize = 0;
    while i < n
        invariant
            i <= n,
            n == records@.len(),
            forall|k: int| 0 <= k < i ==> (#[trigger] records@[k]).wf(),
            forall|k: int, j: int|
                0 <= k < i && k < j < n ==> (#[trigger] records@[k]).name@
                    != (#[trigger] records@[j]).name@,
        decreases n - i,
    {
        let record = &records[i];
        if (record.tls_cert.is_none() || record.tls_key.is_none()) && record.material.is_some() {
            return false;
        }
        let mut j: usize = i + 1;
        while j < n
            invariant
                i < j <= n,
                n == records@.len(),
                forall|m: int| i < m < j ==> records@[i as int].name@ != (#[trigger] records@[m]).name@,
            decreases n - j,
        {
            if same_text(records[i].name.as_str(), records[j].name.as_str()) {
                return false;
            }
            j = j + 1;
        }
        i = i + 1;
    }
    true
}

/// `i` is the first record named `name`.
pub open spec fn first_named(records: Seq<CertificateRecord>, name: Seq<char>, i: int) -> bool {
    &&& 0 <= i < records.len()
    &&& records[i].name@ == name
    &&& forall|k: int| 0 <= k < i ==> records[k].name@ != name
}

/// Some record is named `name`.
pub open spec fn has_named(records: Seq<CertificateRecord>, name: Seq<char>) -> bool {
    exists|i: int| 0 <= i < records.len() && records[i].name@ == name
}

/// Finds the first record named `name`.
pub fn find_certificate(records: &Vec<CertificateRecord>, name: &str) -> (r: Option<usize>)
    ensures
        r is None <==> !has_named(records@, name@),
        r matches Some(i) ==> first_named(records@, name@, i as int),
{
    let mut i: usize = 0;
    while i < records.len()
        invariant
            i <= records.len(),
            forall|k: int| 0 <= k < i ==> records@[k].name@ != name@,
        decreases records.len() - i,
    {
        if same_text(records[i].name.as_str(), name) {
            return Some(i);
        }
        i = i + 1;
    }
    None
}

/// The certificate stored under `name`, as the proxy's certificate layer
/// read it.
pub fn get_lets_encrypt_certificate(records: &Vec<CertificateRecord>, name: &str) -> (r: Result<
    Certificate,
    CertError,
>)
    requires
        records_wf(records@),
    ensures
        r matches Err(CertError::NotFound { .. }) <==> !has_named(records@, name@),
        r matches Err(CertError::NotFound { message }) ==> message@ == "cert not found"@,
        r matches Err(CertError::Fail { category, message }) ==> category == Category::NewCertificate
            && message@ == "certificate material cannot be parsed"@,
        r is Err ==> r matches Err(CertError::NotFound { .. }) || r matches Err(
            CertError::Fail { .. },
        ),
        forall|i: int|
            first_named(records@, name@, i) && (records@[i].tls_cert is None
                || records@[i].tls_key is None) ==> r matches Err(
                CertError::Fail { category: Category::NewCertificate, .. },
            ),
        has_named(records@, name@) ==> exists|i: int| first_named(records@, name@, i),
        forall|i: int|
            first_named(records@, name@, i) ==> match records@[i].material {
                None => r matches Err(CertError::Fail { category: Category::NewCertificate, .. }),
                Some(c) => r matches Ok(x) && x.domains@ == c.domains@ && x.valid == c.valid,
            },
{
    match find_certificate(records, name) {
        None => Err(CertError::NotFound { message: String::from_str("cert not found") }),
        Some(i) => match &records[i].material {
            None => Err(
                CertError::Fail {
                    category: Category::NewCertificate,
                    message: String::from_str("certificate material cannot be parsed"),
                },
            ),
            Some(c) => Ok(Certificate { domains: c.domains.clone(), valid: c.valid }),
        },
    }
}

/// Whether a target with `configured` domains must be issued again, given
/// what reading its current certificate gave: it must when there is no
/// usable certificate, when the certificate fails its validity check, or
/// when its domains differ from the configured ones in more than order.
pub open spec fn renewal_needed(configured: Seq<String>, current: Result<Certificate, CertError>) -> bool {
    match current {
        Err(_) => true,
        Ok(c) => !c.valid || domains_differ(configured, c.domains@),
    }
}

/// Whether the material stored for a target obliges a new issue.
pub open spec fn material_needs_renewal(configured: Seq<String>, material: Option<Certificate>) -> bool {
    match material {
        None => true,
        Some(c) => !c.valid || domains_differ(configured, c.domains@),
    }
}

/// Whether the configuration `records` obliges a new issue for a target
/// named `name` with `configured` domains: vacuously so where no record
/// has that name.
pub open spec fn stored_renewal_needed(
    records: Seq<CertificateRecord>,
    name: Seq<char>,
    configured: Seq<String>,
) -> bool {
    forall|i: int| first_named(records, name, i) ==> material_needs_renewal(configured, records[i].material)
}

/// Decides whether a target must be issued again.
pub fn should_renew(configured: &Vec<String>, current: &Result<Certificate, CertError>) -> (r: bool)
    ensures
        r == renewal_needed(configured@, *current),
{
    match current {
        Err(_) => true,
        Ok(c) => !c.valid() || domains_changed(configured, &c.domains),
    }
}

/// A certificate that fails its validity check is always issued again,
/// whatever its domains.
pub proof fn lemma_invalid_certificate_renewed(configured: Seq<String>, c: Certificate)
    requires
        !c.valid,
    ensures
        renewal_needed(configured, Ok(c)),
{
}

/// Puts a newly issued PEM pair into the record named `name`, leaving
/// every other record and field as it was. The parsed material of that
/// record is dropped, since it no longer describes the stored PEM. Returns
/// whether such a record exists.
pub fn install_certificate(
    records: &mut Vec<CertificateRecord>,
    name: &str,
    cert_pem: String,
    key_pem: String,
) -> (r: bool)
    requires
        records_wf(old(records)@),
    ensures
        records_wf(final(records)@),
        r == has_named(old(records)@, name@),
        final(records)@.len() == old(records)@.len(),
        forall|i: int|
            0 <= i < final(records)@.len() ==> (#[trigger] final(records)@[i]).name == old(
                records,
            )@[i].name,
        forall|i: int|
            first_named(old(records)@, name@, i) ==> (#[trigger] final(records)@[i]).name
                == old(records)@[i].name && final(records)@[i].tls_cert == Some(cert_pem)
                && final(records)@[i].tls_key == Some(key_pem) && final(records)@[i].material
                is None,
        forall|i: int|
            0 <= i < old(records)@.len() && !first_named(old(records)@, name@, i)
                ==> final(records)@[i] == old(records)@[i],
{
    match find_certificate(records, name) {
        None => false,
        Some(i) => {
            let updated = CertificateRecord {
                name: records[i].name.clone(),
                tls_cert: Some(cert_pem),
                tls_key: Some(key_pem),
                material: None,
            };
            records.set(i, updated);
            true
        },
    }
}

} // verus!
