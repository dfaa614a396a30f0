//! The APT index generator: the `Packages` stanza list and the `Release`
//! summary document, with digests and sizes of the plain and gzip-compressed
//! listing.

use vstd::prelude::*;

use crate::compress::{gzip_compression, gzip_of};
use crate::digest::{hashsum, md5_of, sha1_of, sha256_of, sha512_of, HashAlgo};
use crate::package::{spec_file_name, Package};
use crate::strutil::{dec_str, hex_str, trim_end_spec, trim_end_str, usize_to_dec};
use crate::timefmt::{rfc2822_of, rfc2822_utc, MAX_DATE_SECS};
use vstd::string::StringSliceAdditionalSpecFns;
use vstd::utf8::encode_utf8;

verus! {

/// Why an artifact contributes no stanza to a listing.
#[derive(Debug, Clone, Copy, PartialEq, Eq, Structural)]
pub enum IndexError {
    /// The raw-data slot is still empty: the artifact was not downloaded yet.
    MissingRawData,
}

/// One Debian artifact prepared for the `Packages` listing: the trimmed
/// control stanza and the pool path, size and digests of the raw bytes.
#[derive(Debug)]
pub struct DebianPackage {
    pub control: String,
    pub md5: String,
    pub sha1: String,
    pub sha256: String,
    pub sha512: String,
    pub size: usize,
    pub filename: String,
}

/// The mathematical content of a `DebianPackage`.
pub struct DebView {
    pub control: Seq<char>,
    pub md5: Seq<char>,
    pub sha1: Seq<char>,
    pub sha256: Seq<char>,
    pub sha512: Seq<char>,
    pub size: nat,
    pub filename: Seq<char>,
}

impl View for DebianPackage {
    type V = DebView;

    open spec fn view(&self) -> DebView {
        DebView {
            control: self.control@,
            md5: self.md5@,
            sha1: self.sha1@,
            sha256: self.sha256@,
            sha512: self.sha512@,
            size: self.size as nat,
            filename: self.filename@,
        }
    }
}

/// The canonical storage path of an artifact inside the repository pool.
pub open spec fn pool_path(ver: Seq<char>, name: Seq<char>) -> Seq<char> {
    "pool/stable/"@ + ver + "/"@ + name
}

/// What `DebianPackage::from_package` derives from an available package and
/// its control record.
pub open spec fn spec_deb_of(p: Package, control: Seq<char>) -> DebView {
    DebView {
        control: trim_end_spec(control),
        md5: hex_str(md5_of(p.data->0@)),
        sha1: hex_str(sha1_of(p.data->0@)),
        sha256: hex_str(sha256_of(p.data->0@)),
        sha512: hex_str(sha512_of(p.data->0@)),
        size: p.data->0@.len(),
        filename: pool_path(p.ver@, spec_file_name(p.url@)),
    }
}

impl DebianPackage {
    /// Prepares one package for the listing: fails exactly when the raw
    /// data is still missing; otherwise trims the control record and
    /// computes the pool path, size and all four digests of the raw bytes.
    pub fn from_package(package: &Package, control: &str) -> (r: Result<DebianPackage, IndexError>)
        ensures
            r is Ok <==> package.data is Some,
            r is Err ==> r->Err_0 == IndexError::MissingRawData,
            r is Ok ==> r->Ok_0@ == spec_deb_of(*package, control@),
    {
        let data: &Vec<u8> = match &package.data {
            Option::None => {
                return Err(IndexError::MissingRawData);
            },
            Option::Some(d) => d,
        };
        let mut filename = String::new();
        filename.append("pool/stable/");
        filename.append(package.version());
        filename.append("/");
        filename.append(package.file_name());
        let deb = DebianPackage {
            control: trim_end_str(control),
            md5: hashsum(HashAlgo::Md5, data.as_slice()),
            sha1: hashsum(HashAlgo::Sha1, data.as_slice()),
            sha256: hashsum(HashAlgo::Sha256, data.as_slice()),
            sha512: hashsum(HashAlgo::Sha512, data.as_slice()),
            size: data.len(),
            filename,
        };
        Ok(deb)
    }
}

/// The latest creation timestamp in the pool, never below the epoch.
pub open spec fn spec_latest_date(pool: Seq<Package>) -> int
    decreases pool.len(),
{
    if pool.len() == 0 {
        0
    } else {
        let rest = spec_latest_date(pool.drop_last());
        if pool.last().created > rest {
            pool.last().created as int
        } else {
            rest
        }
    }
}

/// The listing entries an (equal-length) pool and control-record list give:
/// packages without raw data are skipped, order preserved.
pub open spec fn spec_debs(pool: Seq<Package>, ctrls: Seq<Seq<char>>) -> Seq<DebView>
    decreases pool.len(),
{
    if pool.len() == 0 || ctrls.len() == 0 {
        Seq::empty()
    } else {
        let rest = spec_debs(pool.drop_last(), ctrls.drop_last());
        if pool.last().data is Some {
            rest + seq![spec_deb_of(pool.last(), ctrls.last())]
        } else {
            rest
        }
    }
}

/// How many packages of the pool carry raw data.
pub open spec fn count_available(pool: Seq<Package>) -> nat
    decreases pool.len(),
{
    if pool.len() == 0 {
        0
    } else {
        count_available(pool.drop_last()) + if pool.last().data is Some {
            1 as nat
        } else {
            0 as nat
        }
    }
}

/// A pool with some artifacts not yet downloaded still yields a listing:
/// one entry per available package, exactly.
pub proof fn lemma_partial_availability(pool: Seq<Package>, ctrls: Seq<Seq<char>>)
    requires
        pool.len() == ctrls.len(),
    ensures
        spec_debs(pool, ctrls).len() == count_available(pool),
    decreases pool.len(),
{
    if pool.len() > 0 {
        lemma_partial_availability(pool.drop_last(), ctrls.drop_last());
    }
}

/// The APT index generator: the prepared listing entries and the date that
/// stamps the `Release` document.
#[derive(Debug)]
pub struct AptIndices {
    pub packages: Vec<DebianPackage>,
    pub date: i64,
}

/// The mathematical content of an `AptIndices`.
pub struct AptView {
    pub debs: Seq<DebView>,
    pub date: int,
}

impl View for AptIndices {
    type V = AptView;

    open spec fn view(&self) -> AptView {
        AptView { debs: self.packages@.map_values(|d: DebianPackage| d@), date: self.date as int }
    }
}

/// One stanza of the `Packages` listing: the trimmed control record with
/// the pool path, size and digest fields appended in fixed order, closed by
/// a blank line.
pub open spec fn spec_stanza(d: DebView) -> Seq<char> {
    d.control + "\nFilename: "@ + d.filename + "\nSize: "@ + dec_str(d.size) + "\nMD5sum: "@
        + d.md5 + "\nSHA1: "@ + d.sha1 + "\nSHA256: "@ + d.sha256 + "\nSHA512: "@ + d.sha512
        + "\n\n"@
}

/// The stanzas of all listed packages, in input order.
pub open spec fn spec_stanzas(debs: Seq<DebView>) -> Seq<char>
    decreases debs.len(),
{
    if debs.len() == 0 {
        Seq::empty()
    } else {
        spec_stanzas(debs.drop_last()) + spec_stanza(debs.last())
    }
}

/// The whole `Packages` document: the stanzas, right-trimmed.
pub open spec fn spec_package_index(debs: Seq<DebView>) -> Seq<char> {
    trim_end_spec(spec_stanzas(debs))
}

/// One file entry of the `Release` document: digest, rendered byte size,
/// path.
pub open spec fn spec_file_line(hex: Seq<char>, size_s: Seq<char>, path: Seq<char>) -> Seq<char> {
    " "@ + hex + " "@ + size_s + " "@ + path + "\n"@
}

/// The repository path of the plain `Packages` listing.
pub open spec fn path_plain() -> Seq<char> {
    "main/binary-amd64/Packages"@
}

/// The repository path of the gzip-compressed `Packages` listing.
pub open spec fn path_gz() -> Seq<char> {
    "main/binary-amd64/Packages.gz"@
}

/// The `Release` document with the two file sizes given explicitly: header
/// with origin, label and date, then one digest section per algorithm, each
/// listing the plain and the compressed `Packages` artifact.
pub open spec fn spec_release_with_sizes(
    debs: Seq<DebView>,
    date: int,
    psize: nat,
    gsize: nat,
) -> Seq<char> {
    let plain = encode_utf8(spec_package_index(debs));
    let gz = gzip_of(plain);
    "Origin: . stable\nLabel: . stable\nDate: "@ + rfc2822_of(date) + "\n"@ + "MD5Sum:\n"@
        + spec_file_line(hex_str(md5_of(plain)), dec_str(psize), path_plain()) + spec_file_line(
        hex_str(md5_of(gz)),
        dec_str(gsize),
        path_gz(),
    ) + "SHA1:\n"@ + spec_file_line(hex_str(sha1_of(plain)), dec_str(psize), path_plain())
        + spec_file_line(hex_str(sha1_of(gz)), dec_str(gsize), path_gz()) + "SHA256:\n"@
        + spec_file_line(hex_str(sha256_of(plain)), dec_str(psize), path_plain())
        + spec_file_line(hex_str(sha256_of(gz)), dec_str(gsize), path_gz()) + "SHA512:\n"@
        + spec_file_line(hex_str(sha512_of(plain)), dec_str(psize), path_plain())
        + spec_file_line(hex_str(sha512_of(gz)), dec_str(gsize), path_gz())
}

/// The `Release` document: the sizes embedded are the exact byte lengths of
/// the plain and gzip-compressed `Packages` listing.
pub open spec fn spec_release_index(debs: Seq<DebView>, date: int) -> Seq<char> {
    spec_release_with_sizes(
        debs,
        date,
        encode_utf8(spec_package_index(debs)).len(),
        gzip_of(encode_utf8(spec_package_index(debs))).len(),
    )
}

/// Size accounting: each file entry of the `Release` document carries the
/// exact byte length of the artifact it describes — the plain listing's
/// UTF-8 length and the compressed listing's length.
pub proof fn lemma_release_size_accounting(debs: Seq<DebView>, date: int)
    ensures
        spec_release_index(debs, date) == spec_release_with_sizes(
            debs,
            date,
            encode_utf8(spec_package_index(debs)).len(),
            gzip_of(encode_utf8(spec_package_index(debs))).len(),
        ),
{
}

/// Idempotence: two generators prepared from the same pool and the same
/// control records render byte-identical `Packages` and `Release`
/// documents — regeneration from unchanged inputs never changes a byte.
pub proof fn lemma_regeneration_idempotent(
    pool: Seq<Package>,
    ctrls: Seq<Seq<char>>,
    a: AptIndices,
    b: AptIndices,
)
    requires
        a@.debs == spec_debs(pool, ctrls),
        b@.debs == spec_debs(pool, ctrls),
        a@.date == spec_latest_date(pool),
        b@.date == spec_latest_date(pool),
    ensures
        spec_package_index(a@.debs) == spec_package_index(b@.debs),
        spec_release_index(a@.debs, a@.date) == spec_release_index(b@.debs, b@.date),
{
}

impl AptIndices {
    /// Prepares the generator from a pool and the control record of each
    /// package (`controls[i]` belongs to `packages[i]`): packages without
    /// raw data are skipped, and the `Release` date is the latest creation
    /// timestamp of the pool (the epoch when the pool is empty).
    pub fn new(packages: &[Package], controls: &[String]) -> (r: AptIndices)
        requires
            packages@.len() == controls@.len(),
            forall|i: int|
                0 <= i < packages@.len() ==> (#[trigger] packages@[i]).created <= MAX_DATE_SECS,
        ensures
            r@.debs == spec_debs(packages@, controls.deep_view()),
            r@.date == spec_latest_date(packages@),
            0 <= r@.date <= MAX_DATE_SECS,
    {
        let n: usize = packages.len();
        let mut debian: Vec<DebianPackage> = Vec::new();
        let mut date: i64 = 0;
        let mut i: usize = 0;
        proof {
            assert(packages@.take(0) =~= Seq::<Package>::empty());
            assert(controls.deep_view().take(0) =~= Seq::<Seq<char>>::empty());
            assert(debian@.map_values(|d: DebianPackage| d@) =~= spec_debs(
                packages@.take(0),
                controls.deep_view().take(0),
            ));
        }
        while i < n
            invariant
                0 <= i <= n,
                n == packages@.len() == controls@.len(),
                controls.deep_view().len() == n,
                forall|k: int|
                    0 <= k < packages@.len() ==> (#[trigger] packages@[k]).created
                        <= MAX_DATE_SECS,
                date == spec_latest_date(packages@.take(i as int)),
                0 <= date <= MAX_DATE_SECS,
                debian@.map_values(|d: DebianPackage| d@) == spec_debs(
                    packages@.take(i as int),
                    controls.deep_view().take(i as int),
                ),
            decreases n - i,
        {
            let package: &Package = &packages[i];
            proof {
                assert(packages@.take(i + 1).drop_last() =~= packages@.take(i as int));
                assert(controls.deep_view().take(i + 1).drop_last() =~= controls.deep_view().take(
                    i as int,
                ));
                assert(packages@.take(i + 1).last() == packages@[i as int]);
                assert(controls.deep_view().take(i + 1).last() == controls@[i as int]@);
            }
            if package.creation_date() > date {
                date = package.creation_date();
            }
            match DebianPackage::from_package(package, controls[i].as_str()) {
                Ok(deb) => {
                    debian.push(deb);
                },
                Err(_) => {
                    // The artifact is not downloaded yet: skip it, the rest
                    // of the pool still produces a listing.
                },
            }
            proof {
                assert(debian@.map_values(|d: DebianPackage| d@) =~= spec_debs(
                    packages@.take(i + 1),
                    controls.deep_view().take(i + 1),
                ));
            }
            i = i + 1;
        }
        proof {
            assert(packages@.take(n as int) =~= packages@);
            assert(controls.deep_view().take(n as int) =~= controls.deep_view());
        }
        AptIndices { packages: debian, date }
    }

    /// Renders the `Packages` listing: one stanza per prepared package, in
    /// order, and the whole document right-trimmed.
    pub fn get_package_index(&self) -> (r: String)
        ensures
            r@ == spec_package_index(self@.debs),
    {
        let m: usize = self.packages.len();
        let mut out = String::new();
        let mut i: usize = 0;
        proof {
            assert(self@.debs.take(0) =~= Seq::<DebView>::empty());
            assert(out@ =~= spec_stanzas(self@.debs.take(0)));
        }
        while i < m
            invariant
                0 <= i <= m,
                m == self.packages@.len(),
                out@ == spec_stanzas(self@.debs.take(i as int)),
            decreases m - i,
        {
            let d: &DebianPackage = &self.packages[i];
            proof {
                assert(self@.debs.take(i + 1).drop_last() =~= self@.debs.take(i as int));
                assert(self@.debs.take(i + 1).last() == self@.debs[i as int]);
                assert(self@.debs[i as int] == self.packages@[i as int]@);
            }
            out.append(d.control.as_str());
            out.append("\nFilename: ");
            out.append(d.filename.as_str());
            out.append("\nSize: ");
            let size_s = usize_to_dec(d.size);
            out.append(size_s.as_str());
            out.append("\nMD5sum: ");
            out.append(d.md5.as_str());
            out.append("\nSHA1: ");
            out.append(d.sha1.as_str());
            out.append("\nSHA256: ");
            out.append(d.sha256.as_str());
            out.append("\nSHA512: ");
            out.append(d.sha512.as_str());
            out.append("\n\n");
            proof {
                assert(out@ =~= spec_stanzas(self@.debs.take(i + 1)));
            }
            i = i + 1;
        }
        proof {
            assert(self@.debs.take(m as int) =~= self@.debs);
        }
        trim_end_str(out.as_str())
    }

    /// Renders the `Release` summary: origin and label, the pool's latest
    /// creation date in RFC 2822 form, and one digest/size file entry per
    /// algorithm for the plain and the gzip-compressed `Packages` listing.
    pub fn get_release_index(&self) -> (r: String)
        requires
            0 <= self.date <= MAX_DATE_SECS,
        ensures
            r@ == spec_release_index(self@.debs, self@.date),
    {
        let date_s = rfc2822_utc(self.date);

        let packages = self.get_package_index();
        let pbytes: &[u8] = packages.as_str().as_bytes();
        let gz: Vec<u8> = gzip_compression(pbytes);

        let psize_s = usize_to_dec(pbytes.len());
        let gsize_s = usize_to_dec(gz.len());

        let mut out = String::new();
        out.append("Origin: . stable\nLabel: . stable\nDate: ");
        out.append(date_s.as_str());
        out.append("\n");
        out.append("MD5Sum:\n");
        push_file_line(&mut out, hashsum(HashAlgo::Md5, pbytes), &psize_s, false);
        push_file_line(&mut out, hashsum(HashAlgo::Md5, gz.as_slice()), &gsize_s, true);
        out.append("SHA1:\n");
        push_file_line(&mut out, hashsum(HashAlgo::Sha1, pbytes), &psize_s, false);
        push_file_line(&mut out, hashsum(HashAlgo::Sha1, gz.as_slice()), &gsize_s, true);
        out.append("SHA256:\n");
        push_file_line(&mut out, hashsum(HashAlgo::Sha256, pbytes), &psize_s, false);
        push_file_line(&mut out, hashsum(HashAlgo::Sha256, gz.as_slice()), &gsize_s, true);
        out.append("SHA512:\n");
        push_file_line(&mut out, hashsum(HashAlgo::Sha512, pbytes), &psize_s, false);
        push_file_line(&mut out, hashsum(HashAlgo::Sha512, gz.as_slice()), &gsize_s, true);
        proof {
            assert(out@ =~= spec_release_index(self@.debs, self@.date));
        }
        out
    }

}

fn push_file_line(out: &mut String, hex: String, size_s: &String, gz_path: bool)
    ensures
        final(out)@ == old(out)@ + spec_file_line(
            hex@,
            size_s@,
            if gz_path {
                path_gz()
            } else {
                path_plain()
            },
        ),
{
    out.append(" ");
    out.append(hex.as_str());
    out.append(" ");
    out.append(size_s.as_str());
    out.append(" ");
    if gz_path {
        out.append("main/binary-amd64/Packages.gz");
    } else {
        out.append("main/binary-amd64/Packages");
    }
    out.append("\n");
}

} // verus!

