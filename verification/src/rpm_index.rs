//! The RPM index generator: the `primary.xml`, `filelists.xml` and
//! `other.xml` listings and the `repomd.xml` summary, with SHA-256 digests
//! and sizes of each listing's plain and zstd-compressed form.

use vstd::prelude::*;

use crate::apt_index::IndexError;
use crate::compress::{zstd_compress, zstd_of};
use crate::digest::{hashsum, sha256_of, HashAlgo};
use crate::package::{spec_file_name, Package};
use crate::strutil::{dec_str, hex_str, u64_to_dec, usize_to_dec};
use vstd::string::StringSliceAdditionalSpecFns;
use vstd::utf8::encode_utf8;

verus! {

/// One RPM artifact prepared for the listings: the structured record the
/// control-data extractor supplies, plus pool path, size and digest of the
/// raw bytes.
#[derive(Debug)]
pub struct RPMPackage {
    pub name: String,
    pub version: String,
    pub arch: String,
    pub size: usize,
    pub pkg_time: i64,
    pub sha256: String,
    pub location: String,
    pub files: Vec<String>,
}

/// The mathematical content of an `RPMPackage`.
pub struct RpmView {
    pub name: Seq<char>,
    pub version: Seq<char>,
    pub arch: Seq<char>,
    pub size: nat,
    pub pkg_time: int,
    pub sha256: Seq<char>,
    pub location: Seq<char>,
    pub files: Seq<Seq<char>>,
}

impl View for RPMPackage {
    type V = RpmView;

    open spec fn view(&self) -> RpmView {
        RpmView {
            name: self.name@,
            version: self.version@,
            arch: self.arch@,
            size: self.size as nat,
            pkg_time: self.pkg_time as int,
            sha256: self.sha256@,
            location: self.location@,
            files: self.files.deep_view(),
        }
    }
}

/// What `RPMPackage::from_package` derives from an available package and
/// the extractor-supplied record fields.
pub open spec fn spec_rpm_of(
    p: Package,
    name: Seq<char>,
    arch: Seq<char>,
    pkg_time: int,
    files: Seq<Seq<char>>,
) -> RpmView {
    RpmView {
        name: name,
        version: p.ver@,
        arch: arch,
        size: p.data->0@.len(),
        pkg_time: pkg_time,
        sha256: hex_str(sha256_of(p.data->0@)),
        location: crate::apt_index::pool_path(p.ver@, spec_file_name(p.url@)),
        files: files,
    }
}

impl RPMPackage {
    /// Prepares one package for the listings: fails exactly when the raw
    /// data is still missing; otherwise takes the extractor's record fields
    /// and computes the pool path, size and SHA-256 digest of the raw
    /// bytes.
    pub fn from_package(
        package: &Package,
        name: String,
        arch: String,
        pkg_time: i64,
        files: Vec<String>,
    ) -> (r: Result<RPMPackage, IndexError>)
        ensures
            r is Ok <==> package.data is Some,
            r is Err ==> r->Err_0 == IndexError::MissingRawData,
            r is Ok ==> r->Ok_0@ == spec_rpm_of(
                *package,
                name@,
                arch@,
                pkg_time as int,
                files.deep_view(),
            ),
    {
        let data: &Vec<u8> = match &package.data {
            Option::None => {
                return Err(IndexError::MissingRawData);
            },
            Option::Some(d) => d,
        };
        let mut location = String::new();
        location.append("pool/stable/");
        location.append(package.version());
        location.append("/");
        location.append(package.file_name());
        let version = package.version().to_owned();
        let rpm = RPMPackage {
            name,
            version,
            arch,
            size: data.len(),
            pkg_time,
            sha256: hashsum(HashAlgo::Sha256, data.as_slice()),
            location,
            files,
        };
        Ok(rpm)
    }
}

/// The views of a prepared package slice.
pub open spec fn rpm_views(pkgs: Seq<RPMPackage>) -> Seq<RpmView> {
    pkgs.map_values(|p: RPMPackage| p@)
}

/// Every package time is a plain epoch-seconds value.
pub open spec fn times_ok(pkgs: Seq<RpmView>) -> bool {
    forall|i: int| 0 <= i < pkgs.len() ==> (#[trigger] pkgs[i]).pkg_time >= 0
}

/// One `<package>` element of `primary.xml`.
pub open spec fn spec_primary_entry(p: RpmView) -> Seq<char> {
    "<package type=\"rpm\">\n  <name>"@ + p.name + "</name>\n  <arch>"@ + p.arch
        + "</arch>\n  <version ver=\""@ + p.version
        + "\"/>\n  <checksum type=\"sha256\" pkgid=\"YES\">"@ + p.sha256
        + "</checksum>\n  <size package=\""@ + dec_str(p.size) + "\"/>\n  <time package=\""@
        + dec_str(p.pkg_time as nat) + "\"/>\n  <location href=\""@ + p.location
        + "\"/>\n</package>\n"@
}

/// The entries of `primary.xml`, in input order.
pub open spec fn spec_primary_entries(pkgs: Seq<RpmView>) -> Seq<char>
    decreases pkgs.len(),
{
    if pkgs.len() == 0 {
        Seq::empty()
    } else {
        spec_primary_entries(pkgs.drop_last()) + spec_primary_entry(pkgs.last())
    }
}

/// The whole `primary.xml` document.
pub open spec fn spec_primary_index(pkgs: Seq<RpmView>) -> Seq<char> {
    "<?xml version=\"1.0\" encoding=\"UTF-8\"?>\n<metadata xmlns=\"http://linux.duke.edu/metadata/common\" packages=\""@
        + dec_str(pkgs.len()) + "\">\n"@ + spec_primary_entries(pkgs) + "</metadata>\n"@
}

/// One `<file>` line of a `filelists.xml` entry.
pub open spec fn spec_file_lines(files: Seq<Seq<char>>) -> Seq<char>
    decreases files.len(),
{
    if files.len() == 0 {
        Seq::empty()
    } else {
        spec_file_lines(files.drop_last()) + "  <file>"@ + files.last() + "</file>\n"@
    }
}

/// One `<package>` element of `filelists.xml`.
pub open spec fn spec_filelists_entry(p: RpmView) -> Seq<char> {
    "<package name=\""@ + p.name + "\" arch=\""@ + p.arch + "\">\n  <version ver=\""@ + p.version
        + "\"/>\n"@ + spec_file_lines(p.files) + "</package>\n"@
}

/// The entries of `filelists.xml`, in input order.
pub open spec fn spec_filelists_entries(pkgs: Seq<RpmView>) -> Seq<char>
    decreases pkgs.len(),
{
    if pkgs.len() == 0 {
        Seq::empty()
    } else {
        spec_filelists_entries(pkgs.drop_last()) + spec_filelists_entry(pkgs.last())
    }
}

/// The whole `filelists.xml` document.
pub open spec fn spec_filelists_index(pkgs: Seq<RpmView>) -> Seq<char> {
    "<?xml version=\"1.0\" encoding=\"UTF-8\"?>\n<filelists xmlns=\"http://linux.duke.edu/metadata/filelists\" packages=\""@
        + dec_str(pkgs.len()) + "\">\n"@ + spec_filelists_entries(pkgs) + "</filelists>\n"@
}

/// One `<package>` element of `other.xml`.
pub open spec fn spec_other_entry(p: RpmView) -> Seq<char> {
    "<package name=\""@ + p.name + "\" arch=\""@ + p.arch + "\">\n  <version ver=\""@ + p.version
        + "\"/>\n</package>\n"@
}

/// The entries of `other.xml`, in input order.
pub open spec fn spec_other_entries(pkgs: Seq<RpmView>) -> Seq<char>
    decreases pkgs.len(),
{
    if pkgs.len() == 0 {
        Seq::empty()
    } else {
        spec_other_entries(pkgs.drop_last()) + spec_other_entry(pkgs.last())
    }
}

/// The whole `other.xml` document.
pub open spec fn spec_other_index(pkgs: Seq<RpmView>) -> Seq<char> {
    "<?xml version=\"1.0\" encoding=\"UTF-8\"?>\n<otherdata xmlns=\"http://linux.duke.edu/metadata/other\" packages=\""@
        + dec_str(pkgs.len()) + "\">\n"@ + spec_other_entries(pkgs) + "</otherdata>\n"@
}

fn push_primary_entry(out: &mut String, p: &RPMPackage)
    requires
        p@.pkg_time >= 0,
    ensures
        final(out)@ == old(out)@ + spec_primary_entry(p@),
{
    out.append("<package type=\"rpm\">\n  <name>");
    out.append(p.name.as_str());
    out.append("</name>\n  <arch>");
    out.append(p.arch.as_str());
    out.append("</arch>\n  <version ver=\"");
    out.append(p.version.as_str());
    out.append("\"/>\n  <checksum type=\"sha256\" pkgid=\"YES\">");
    out.append(p.sha256.as_str());
    out.append("</checksum>\n  <size package=\"");
    let size_s = usize_to_dec(p.size);
    out.append(size_s.as_str());
    out.append("\"/>\n  <time package=\"");
    let time_s = u64_to_dec(p.pkg_time as u64);
    out.append(time_s.as_str());
    out.append("\"/>\n  <location href=\"");
    out.append(p.location.as_str());
    out.append("\"/>\n</package>\n");
    proof {
        assert(out@ =~= old(out)@ + spec_primary_entry(p@));
    }
}

/// Renders `primary.xml`: one entry per package, in input order.
pub fn get_primary_index(packages: &[RPMPackage]) -> (r: String)
    requires
        times_ok(rpm_views(packages@)),
    ensures
        r@ == spec_primary_index(rpm_views(packages@)),
{
    let ghost views: Seq<RpmView> = rpm_views(packages@);
    let n: usize = packages.len();
    let mut out = String::new();
    out.append("<?xml version=\"1.0\" encoding=\"UTF-8\"?>\n<metadata xmlns=\"http://linux.duke.edu/metadata/common\" packages=\"");
    let n_s = u64_to_dec(n as u64);
    out.append(n_s.as_str());
    out.append("\">\n");
    let mut i: usize = 0;
    proof {
        assert(views.take(0) =~= Seq::<RpmView>::empty());
        assert(out@ =~= "<?xml version=\"1.0\" encoding=\"UTF-8\"?>\n<metadata xmlns=\"http://linux.duke.edu/metadata/common\" packages=\""@
            + dec_str(views.len()) + "\">\n"@ + spec_primary_entries(views.take(0)));
    }
    while i < n
        invariant
            0 <= i <= n,
            n == packages@.len(),
            views == rpm_views(packages@),
            times_ok(views),
            out@ == "<?xml version=\"1.0\" encoding=\"UTF-8\"?>\n<metadata xmlns=\"http://linux.duke.edu/metadata/common\" packages=\""@
                + dec_str(views.len()) + "\">\n"@ + spec_primary_entries(views.take(i as int)),
        decreases n - i,
    {
        let p: &RPMPackage = &packages[i];
        proof {
            assert(views.take(i + 1).drop_last() =~= views.take(i as int));
            assert(views.take(i + 1).last() == views[i as int]);
            assert(views[i as int] == packages@[i as int]@);
            assert(views[i as int].pkg_time >= 0);
        }
        push_primary_entry(&mut out, p);
        proof {
            assert(out@ =~= "<?xml version=\"1.0\" encoding=\"UTF-8\"?>\n<metadata xmlns=\"http://linux.duke.edu/metadata/common\" packages=\""@
                + dec_str(views.len()) + "\">\n"@ + spec_primary_entries(views.take(i + 1)));
        }
        i = i + 1;
    }
    out.append("</metadata>\n");
    proof {
        assert(views.take(n as int) =~= views);
        assert(out@ =~= spec_primary_index(views));
    }
    out
}

fn push_filelists_entry(out: &mut String, p: &RPMPackage)
    ensures
        final(out)@ == old(out)@ + spec_filelists_entry(p@),
{
    out.append("<package name=\"");
    out.append(p.name.as_str());
    out.append("\" arch=\"");
    out.append(p.arch.as_str());
    out.append("\">\n  <version ver=\"");
    out.append(p.version.as_str());
    out.append("\"/>\n");
    let ghost head: Seq<char> = old(out)@ + "<package name=\""@ + p.name@ + "\" arch=\""@
        + p.arch@ + "\">\n  <version ver=\""@ + p.version@ + "\"/>\n"@;
    proof {
        assert(out@ =~= head);
        assert(p.files.deep_view().take(0) =~= Seq::<Seq<char>>::empty());
        assert(spec_file_lines(p.files.deep_view().take(0)) =~= Seq::<char>::empty());
    }
    let fm: usize = p.files.len();
    let mut j: usize = 0;
    while j < fm
        invariant
            0 <= j <= fm,
            fm == p.files@.len(),
            out@ == head + spec_file_lines(p.files.deep_view().take(j as int)),
        decreases fm - j,
    {
        proof {
            assert(p.files.deep_view().take(j + 1).drop_last() =~= p.files.deep_view().take(
                j as int,
            ));
            assert(p.files.deep_view().take(j + 1).last() == p.files@[j as int]@);
        }
        out.append("  <file>");
        out.append(p.files[j].as_str());
        out.append("</file>\n");
        proof {
            assert(out@ =~= head + spec_file_lines(p.files.deep_view().take(j + 1)));
        }
        j = j + 1;
    }
    out.append("</package>\n");
    proof {
        assert(p.files.deep_view().take(fm as int) =~= p.files.deep_view());
        assert(out@ =~= old(out)@ + spec_filelists_entry(p@));
    }
}

/// Renders `filelists.xml`: one entry per package with its file list.
pub fn get_filelists_index(packages: &[RPMPackage]) -> (r: String)
    ensures
        r@ == spec_filelists_index(rpm_views(packages@)),
{
    let ghost views: Seq<RpmView> = rpm_views(packages@);
    let n: usize = packages.len();
    let mut out = String::new();
    out.append("<?xml version=\"1.0\" encoding=\"UTF-8\"?>\n<filelists xmlns=\"http://linux.duke.edu/metadata/filelists\" packages=\"");
    let n_s = u64_to_dec(n as u64);
    out.append(n_s.as_str());
    out.append("\">\n");
    let mut i: usize = 0;
    proof {
        assert(views.take(0) =~= Seq::<RpmView>::empty());
        assert(out@ =~= "<?xml version=\"1.0\" encoding=\"UTF-8\"?>\n<filelists xmlns=\"http://linux.duke.edu/metadata/filelists\" packages=\""@
            + dec_str(views.len()) + "\">\n"@ + spec_filelists_entries(views.take(0)));
    }
    while i < n
        invariant
            0 <= i <= n,
            n == packages@.len(),
            views == rpm_views(packages@),
            out@ == "<?xml version=\"1.0\" encoding=\"UTF-8\"?>\n<filelists xmlns=\"http://linux.duke.edu/metadata/filelists\" packages=\""@
                + dec_str(views.len()) + "\">\n"@ + spec_filelists_entries(views.take(i as int)),
        decreases n - i,
    {
        let p: &RPMPackage = &packages[i];
        proof {
            assert(views.take(i + 1).drop_last() =~= views.take(i as int));
            assert(views.take(i + 1).last() == views[i as int]);
            assert(views[i as int] == packages@[i as int]@);
        }
        push_filelists_entry(&mut out, p);
        proof {
            assert(out@ =~= "<?xml version=\"1.0\" encoding=\"UTF-8\"?>\n<filelists xmlns=\"http://linux.duke.edu/metadata/filelists\" packages=\""@
                + dec_str(views.len()) + "\">\n"@ + spec_filelists_entries(views.take(i + 1)));
        }
        i = i + 1;
    }
    out.append("</filelists>\n");
    proof {
        assert(views.take(n as int) =~= views);
        assert(out@ =~= spec_filelists_index(views));
    }
    out
}

fn push_other_entry(out: &mut String, p: &RPMPackage)
    ensures
        final(out)@ == old(out)@ + spec_other_entry(p@),
{
    out.append("<package name=\"");
    out.append(p.name.as_str());
    out.append("\" arch=\"");
    out.append(p.arch.as_str());
    out.append("\">\n  <version ver=\"");
    out.append(p.version.as_str());
    out.append("\"/>\n</package>\n");
    proof {
        assert(out@ =~= old(out)@ + spec_other_entry(p@));
    }
}

/// Renders `other.xml`: one entry per package.
pub fn get_other_index(packages: &[RPMPackage]) -> (r: String)
    ensures
        r@ == spec_other_index(rpm_views(packages@)),
{
    let ghost views: Seq<RpmView> = rpm_views(packages@);
    let n: usize = packages.len();
    let mut out = String::new();
    out.append("<?xml version=\"1.0\" encoding=\"UTF-8\"?>\n<otherdata xmlns=\"http://linux.duke.edu/metadata/other\" packages=\"");
    let n_s = u64_to_dec(n as u64);
    out.append(n_s.as_str());
    out.append("\">\n");
    let mut i: usize = 0;
    proof {
        assert(views.take(0) =~= Seq::<RpmView>::empty());
        assert(out@ =~= "<?xml version=\"1.0\" encoding=\"UTF-8\"?>\n<otherdata xmlns=\"http://linux.duke.edu/metadata/other\" packages=\""@
            + dec_str(views.len()) + "\">\n"@ + spec_other_entries(views.take(0)));
    }
    while i < n
        invariant
            0 <= i <= n,
            n == packages@.len(),
            views == rpm_views(packages@),
            out@ == "<?xml version=\"1.0\" encoding=\"UTF-8\"?>\n<otherdata xmlns=\"http://linux.duke.edu/metadata/other\" packages=\""@
                + dec_str(views.len()) + "\">\n"@ + spec_other_entries(views.take(i as int)),
        decreases n - i,
    {
        let p: &RPMPackage = &packages[i];
        proof {
            assert(views.take(i + 1).drop_last() =~= views.take(i as int));
            assert(views.take(i + 1).last() == views[i as int]);
            assert(views[i as int] == packages@[i as int]@);
        }
        push_other_entry(&mut out, p);
        proof {
            assert(out@ =~= "<?xml version=\"1.0\" encoding=\"UTF-8\"?>\n<otherdata xmlns=\"http://linux.duke.edu/metadata/other\" packages=\""@
                + dec_str(views.len()) + "\">\n"@ + spec_other_entries(views.take(i + 1)));
        }
        i = i + 1;
    }
    out.append("</otherdata>\n");
    proof {
        assert(views.take(n as int) =~= views);
        assert(out@ =~= spec_other_index(views));
    }
    out
}

/// The digest/size record of one listing: SHA-256 and byte size of the
/// plain text and of its zstd-compressed form.
#[derive(Debug)]
pub struct Metadata {
    pub sha256: String,
    pub open_sha256: String,
    pub size: usize,
    pub open_size: usize,
}

/// The mathematical content of a `Metadata`.
pub struct MetaView {
    pub sha256: Seq<char>,
    pub open_sha256: Seq<char>,
    pub size: nat,
    pub open_size: nat,
}

impl View for Metadata {
    type V = MetaView;

    open spec fn view(&self) -> MetaView {
        MetaView {
            sha256: self.sha256@,
            open_sha256: self.open_sha256@,
            size: self.size as nat,
            open_size: self.open_size as nat,
        }
    }
}

/// What `Metadata::create` derives from a listing text: digests and sizes
/// of the UTF-8 bytes and of their zstd compression at the fixed level 0.
pub open spec fn spec_metadata_of(text: Seq<char>) -> MetaView {
    MetaView {
        sha256: hex_str(sha256_of(zstd_of(encode_utf8(text), 0))),
        open_sha256: hex_str(sha256_of(encode_utf8(text))),
        size: zstd_of(encode_utf8(text), 0).len(),
        open_size: encode_utf8(text).len(),
    }
}

/// Size accounting: the open and compressed sizes that `repomd.xml` embeds
/// for a listing are the exact byte lengths of the listing's UTF-8 text and
/// of its zstd-compressed form.
pub proof fn lemma_repomd_size_accounting(text: Seq<char>)
    ensures
        spec_metadata_of(text).open_size == encode_utf8(text).len(),
        spec_metadata_of(text).size == zstd_of(encode_utf8(text), 0).len(),
{
}

impl Metadata {
    /// Create the metadata of the `content`.
    pub fn create(content: String) -> (m: Metadata)
        ensures
            m@ == spec_metadata_of(content@),
    {
        let data: &[u8] = content.as_str().as_bytes();
        let open_size = data.len();
        let open_sha256 = hashsum(HashAlgo::Sha256, data);
        let compressed = zstd_compress(data, 0);
        let size = compressed.len();
        let sha256 = hashsum(HashAlgo::Sha256, compressed.as_slice());
        Metadata { sha256, open_sha256, size, open_size }
    }
}

/// The `repomd.xml` summary: one metadata record per listing and the
/// overall generation timestamp.
#[derive(Debug)]
pub struct RepoMD {
    pub primary: Metadata,
    pub filelists: Metadata,
    pub other: Metadata,
    pub timestamp: i64,
}

impl RepoMD {
    /// Computes the digest/size records of the three rendered listings.
    pub fn create(primary: String, filelists: String, other: String, timestamp: i64) -> (r: RepoMD)
        ensures
            r.primary@ == spec_metadata_of(primary@),
            r.filelists@ == spec_metadata_of(filelists@),
            r.other@ == spec_metadata_of(other@),
            r.timestamp == timestamp,
    {
        let primary = Metadata::create(primary);
        let filelists = Metadata::create(filelists);
        let other = Metadata::create(other);
        RepoMD { primary, filelists, other, timestamp }
    }
}

/// One `<data>` entry of `repomd.xml`.
pub open spec fn spec_data_entry(kind: Seq<char>, m: MetaView) -> Seq<char> {
    "  <data type=\""@ + kind + "\">\n    <checksum type=\"sha256\">"@ + m.sha256
        + "</checksum>\n    <open-checksum type=\"sha256\">"@ + m.open_sha256
        + "</open-checksum>\n    <location href=\"repodata/"@ + kind
        + ".xml.zst\"/>\n    <size>"@ + dec_str(m.size) + "</size>\n    <open-size>"@ + dec_str(
        m.open_size,
    ) + "</open-size>\n  </data>\n"@
}

/// The whole `repomd.xml` document.
pub open spec fn spec_repomd(p: MetaView, f: MetaView, o: MetaView, ts: int) -> Seq<char> {
    "<?xml version=\"1.0\" encoding=\"UTF-8\"?>\n<repomd xmlns=\"http://linux.duke.edu/metadata/repo\">\n  <revision>"@
        + dec_str(ts as nat) + "</revision>\n"@ + spec_data_entry("primary"@, p)
        + spec_data_entry("filelists"@, f) + spec_data_entry("other"@, o) + "</repomd>\n"@
}

fn push_data_entry(out: &mut String, kind: &str, m: &Metadata)
    ensures
        final(out)@ == old(out)@ + spec_data_entry(kind@, m@),
{
    out.append("  <data type=\"");
    out.append(kind);
    out.append("\">\n    <checksum type=\"sha256\">");
    out.append(m.sha256.as_str());
    out.append("</checksum>\n    <open-checksum type=\"sha256\">");
    out.append(m.open_sha256.as_str());
    out.append("</open-checksum>\n    <location href=\"repodata/");
    out.append(kind);
    out.append(".xml.zst\"/>\n    <size>");
    let size_s = usize_to_dec(m.size);
    out.append(size_s.as_str());
    out.append("</size>\n    <open-size>");
    let open_s = usize_to_dec(m.open_size);
    out.append(open_s.as_str());
    out.append("</open-size>\n  </data>\n");
}

impl RepoMD {
    /// Renders the summary document from the three metadata records.
    pub fn render(&self) -> (r: String)
        requires
            self.timestamp >= 0,
        ensures
            r@ == spec_repomd(self.primary@, self.filelists@, self.other@, self.timestamp as int),
    {
        let mut out = String::new();
        out.append("<?xml version=\"1.0\" encoding=\"UTF-8\"?>\n<repomd xmlns=\"http://linux.duke.edu/metadata/repo\">\n  <revision>");
        let ts_s = u64_to_dec(self.timestamp as u64);
        out.append(ts_s.as_str());
        out.append("</revision>\n");
        push_data_entry(&mut out, "primary", &self.primary);
        push_data_entry(&mut out, "filelists", &self.filelists);
        push_data_entry(&mut out, "other", &self.other);
        out.append("</repomd>\n");
        proof {
            assert(out@ =~= spec_repomd(
                self.primary@,
                self.filelists@,
                self.other@,
                self.timestamp as int,
            ));
        }
        out
    }
}

/// The latest package time in the pool, never below zero.
pub open spec fn spec_latest_time(pkgs: Seq<RpmView>) -> int
    decreases pkgs.len(),
{
    if pkgs.len() == 0 {
        0
    } else {
        let rest = spec_latest_time(pkgs.drop_last());
        if pkgs.last().pkg_time > rest {
            pkgs.last().pkg_time
        } else {
            rest
        }
    }
}

/// The whole `repomd.xml` for a pool: the three listings are rendered,
/// compressed and measured, and the revision is the latest package time.
pub open spec fn spec_repomd_index(pkgs: Seq<RpmView>) -> Seq<char> {
    spec_repomd(
        spec_metadata_of(spec_primary_index(pkgs)),
        spec_metadata_of(spec_filelists_index(pkgs)),
        spec_metadata_of(spec_other_index(pkgs)),
        spec_latest_time(pkgs),
    )
}

/// Renders `repomd.xml`: digests and sizes of the plain and compressed form
/// of each of the three listings, and the latest package time as revision.
pub fn get_repomd_index(packages: &[RPMPackage]) -> (r: String)
    requires
        times_ok(rpm_views(packages@)),
    ensures
        r@ == spec_repomd_index(rpm_views(packages@)),
{
    let ghost views: Seq<RpmView> = rpm_views(packages@);
    let primary = get_primary_index(packages);
    let filelists = get_filelists_index(packages);
    let other = get_other_index(packages);

    // Find the latest package time in the pool.
    let n: usize = packages.len();
    let mut timestamp: i64 = 0;
    let mut i: usize = 0;
    proof {
        assert(views.take(0) =~= Seq::<RpmView>::empty());
    }
    while i < n
        invariant
            0 <= i <= n,
            n == packages@.len(),
            views == rpm_views(packages@),
            timestamp == spec_latest_time(views.take(i as int)),
        decreases n - i,
    {
        proof {
            assert(views.take(i + 1).drop_last() =~= views.take(i as int));
            assert(views.take(i + 1).last() == views[i as int]);
            assert(views[i as int] == packages@[i as int]@);
        }
        if packages[i].pkg_time > timestamp {
            timestamp = packages[i].pkg_time;
        }
        i = i + 1;
    }
    proof {
        assert(views.take(n as int) =~= views);
    }

    let repomd = RepoMD::create(primary, filelists, other, timestamp);
    repomd.render()
}

} // verus!
