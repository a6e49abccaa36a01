//! Packages that are installed on a device.

use crate::host::transfer;
use crate::host::transfer::{Reply, ReplyView, TransferError, config_bytes, make_bare};
use crate::path;
use crate::path::{file_extension, file_name, same_ignoring_case};
use crate::protocol::bytes::copy_range;
use crate::protocol::command::HdcCommand;
use crate::protocol::config::{TaskMessage, TaskMessageView};
use crate::protocol::labeled;
use crate::protocol::serializer::TransferConfigView;
use crate::protocol::tlv;
use crate::text;
use crate::text::{chars_of, concat2, concat3, copy_text, ends_with, lossy_text, same_text, to_ascii_lowercase};
use vstd::prelude::*;
use vstd::utf8::*;

verus! {

// ---------------------------------------------------------------------------
// Archives
// ---------------------------------------------------------------------------

/// How many entries `zip::ZipArchive` finds in the bytes of an archive, or the text of
/// its error.
pub uninterp spec fn zip_count(archive: Seq<u8>) -> Result<nat, Seq<char>>;

/// The name that `zip::ZipArchive::by_index` gives for an entry of an archive, or the
/// text of its error.
pub uninterp spec fn zip_entry_name(archive: Seq<u8>, i: nat) -> Result<Seq<char>, Seq<char>>;

/// What reading an entry of an archive to its end gives, or the text of the error.
pub uninterp spec fn zip_entry_data(archive: Seq<u8>, i: nat) -> Result<Seq<u8>, Seq<char>>;

/// The number of entries of an archive: `zip::ZipArchive::new` and `len`. The result
/// depends on the bytes alone.
#[verifier::external_body]
fn count_entries(archive: &[u8]) -> (r: Result<usize, String>)
    ensures
        r is Ok == (zip_count(archive@) is Ok),
        r is Ok ==> r->Ok_0 == zip_count(archive@)->Ok_0,
        r is Err ==> r->Err_0@ == zip_count(archive@)->Err_0,
{
    match zip::ZipArchive::new(std::io::Cursor::new(archive)) {
        Ok(a) => Ok(a.len()),
        Err(e) => Err(e.to_string()),
    }
}

/// The name of an entry of an archive: `zip::ZipArchive::by_index` and `name`. The
/// result depends on the bytes and the number of the entry alone.
#[verifier::external_body]
fn entry_name(archive: &[u8], i: usize) -> (r: Result<String, String>)
    ensures
        r is Ok == (zip_entry_name(archive@, i as nat) is Ok),
        r is Ok ==> r->Ok_0@ == zip_entry_name(archive@, i as nat)->Ok_0,
        r is Err ==> r->Err_0@ == zip_entry_name(archive@, i as nat)->Err_0,
{
    let mut a = match zip::ZipArchive::new(std::io::Cursor::new(archive)) {
        Ok(a) => a,
        Err(e) => return Err(e.to_string()),
    };
    let name = a.by_index(i).map(|entry| entry.name().to_string());
    name.map_err(|e| e.to_string())
}

/// The content of an entry of an archive: `zip::ZipArchive::by_index`, read to its end.
/// The result depends on the bytes and the number of the entry alone.
#[verifier::external_body]
fn entry_data(archive: &[u8], i: usize) -> (r: Result<Vec<u8>, String>)
    ensures
        r is Ok == (zip_entry_data(archive@, i as nat) is Ok),
        r is Ok ==> r->Ok_0@ == zip_entry_data(archive@, i as nat)->Ok_0,
        r is Err ==> r->Err_0@ == zip_entry_data(archive@, i as nat)->Err_0,
{
    let mut a = match zip::ZipArchive::new(std::io::Cursor::new(archive)) {
        Ok(a) => a,
        Err(e) => return Err(e.to_string()),
    };
    let mut entry = match a.by_index(i) {
        Ok(entry) => entry,
        Err(e) => return Err(e.to_string()),
    };
    let mut out = Vec::new();
    std::io::Read::read_to_end(&mut entry, &mut out).map(|_| out).map_err(|e| e.to_string())
}

/// A package out of an archive.
#[derive(Debug, PartialEq, Eq)]
pub struct Hap {
    pub name: String,
    pub data: Vec<u8>,
}

/// A package out of an archive.
pub struct HapView {
    pub name: Seq<char>,
    pub data: Seq<u8>,
}

impl View for Hap {
    type V = HapView;

    open spec fn view(&self) -> HapView {
        HapView { name: self.name@, data: self.data@ }
    }
}

/// Packages out of an archive.
pub open spec fn hap_views(v: Seq<Hap>) -> Seq<HapView> {
    v.map_values(|h: Hap| h@)
}

/// Why the packages of an archive cannot be had.
#[derive(Debug, PartialEq, Eq)]
pub enum AppError {
    /// The words of the command name no package.
    MissingPath,
    /// The archive cannot be opened.
    Archive(String),
    /// An entry of the archive cannot be found.
    Entry(String),
    /// An entry of the archive cannot be read.
    Extract(String),
    /// The archive holds no package.
    NoHap,
}

/// Why the packages of an archive cannot be had.
pub enum AppErrorView {
    MissingPath,
    Archive(Seq<char>),
    Entry(Seq<char>),
    Extract(Seq<char>),
    NoHap,
}

impl View for AppError {
    type V = AppErrorView;

    open spec fn view(&self) -> AppErrorView {
        match *self {
            AppError::MissingPath => AppErrorView::MissingPath,
            AppError::Archive(e) => AppErrorView::Archive(e@),
            AppError::Entry(e) => AppErrorView::Entry(e@),
            AppError::Extract(e) => AppErrorView::Extract(e@),
            AppError::NoHap => AppErrorView::NoHap,
        }
    }
}

impl AppErrorView {
    /// The sentence that reports the error.
    pub open spec fn text(self) -> Seq<char> {
        match self {
            AppErrorView::MissingPath => "Missing app path"@,
            AppErrorView::Archive(e) => "Failed to open .app as zip: "@ + e,
            AppErrorView::Entry(e) => "Zip entry error: "@ + e,
            AppErrorView::Extract(e) => "Extract failed: "@ + e,
            AppErrorView::NoHap => "No .hap found in .app package"@,
        }
    }
}

impl AppError {
    /// The sentence that reports the error.
    pub fn message(&self) -> (r: String)
        ensures
            r@ == self@.text(),
    {
        match self {
            AppError::MissingPath => "Missing app path".to_owned(),
            AppError::Archive(e) => concat2("Failed to open .app as zip: ", e.as_str()),
            AppError::Entry(e) => concat2("Zip entry error: ", e.as_str()),
            AppError::Extract(e) => concat2("Extract failed: ", e.as_str()),
            AppError::NoHap => "No .hap found in .app package".to_owned(),
        }
    }
}

/// An entry of that name is a package.
pub open spec fn is_hap(name: Seq<char>) -> bool {
    text::has_suffix(text::lowered(name), ".hap"@)
}

/// The name of the file that an entry is written to.
pub open spec fn hap_file_name(name: Seq<char>, separator: char) -> Seq<char> {
    match path::last_name(name, separator) {
        Some(n) => n,
        None => name,
    }
}

/// The packages among the first `n` entries of an archive.
pub open spec fn haps_among(archive: Seq<u8>, n: nat, separator: char) -> Result<
    Seq<HapView>,
    AppErrorView,
>
    decreases n,
{
    if n == 0 {
        Ok(Seq::empty())
    } else {
        let i = (n - 1) as nat;
        match haps_among(archive, i, separator) {
            Err(e) => Err(e),
            Ok(before) => match zip_entry_name(archive, i) {
                Err(e) => Err(AppErrorView::Entry(e)),
                Ok(name) => if !is_hap(name) {
                    Ok(before)
                } else {
                    match zip_entry_data(archive, i) {
                        Err(e) => Err(AppErrorView::Extract(e)),
                        Ok(data) => Ok(
                            before.push(HapView { name: hap_file_name(name, separator), data }),
                        ),
                    }
                },
            },
        }
    }
}

/// The packages in an archive.
pub open spec fn haps_in(archive: Seq<u8>, separator: char) -> Result<Seq<HapView>, AppErrorView> {
    match zip_count(archive) {
        Err(e) => Err(AppErrorView::Archive(e)),
        Ok(n) => haps_among(archive, n, separator),
    }
}

/// An error in an entry is an error of the archive.
proof fn error_stays(archive: Seq<u8>, m: nat, n: nat, separator: char)
    requires
        m <= n,
        haps_among(archive, m, separator) is Err,
    ensures
        haps_among(archive, n, separator) == haps_among(archive, m, separator),
    decreases n,
{
    if m < n {
        error_stays(archive, m, (n - 1) as nat, separator);
    }
}

/// The packages in an archive, in its order. `separator` divides paths.
pub fn read_haps(archive: &[u8], separator: char) -> (r: Result<Vec<Hap>, AppError>)
    ensures
        match r {
            Ok(v) => haps_in(archive@, separator) == Ok::<_, AppErrorView>(hap_views(v@)),
            Err(e) => haps_in(archive@, separator) == Err::<Seq<HapView>, _>(e@),
        },
{
    let n: usize = match count_entries(archive) {
        Ok(n) => n,
        Err(e) => return Err(AppError::Archive(e)),
    };
    let mut out: Vec<Hap> = Vec::new();
    let mut i: usize = 0;
    assert(hap_views(out@) =~= Seq::<HapView>::empty());
    while i < n
        invariant
            i <= n,
            zip_count(archive@) == Ok::<nat, Seq<char>>(n as nat),
            haps_among(archive@, i as nat, separator) == Ok::<_, AppErrorView>(hap_views(out@)),
        decreases n - i,
    {
        let ghost m = (i + 1) as nat;
        assert((m - 1) as nat == i as nat);
        let name = match entry_name(archive, i) {
            Ok(name) => name,
            Err(e) => {
                proof {
                    error_stays(archive@, m, n as nat, separator);
                }
                return Err(AppError::Entry(e));
            },
        };
        if ends_with(to_ascii_lowercase(name.as_str()).as_str(), ".hap") {
            let data = match entry_data(archive, i) {
                Ok(data) => data,
                Err(e) => {
                    proof {
                        error_stays(archive@, m, n as nat, separator);
                    }
                    return Err(AppError::Extract(e));
                },
            };
            let short: String = match file_name(name.as_str(), separator) {
                Some(s) => s,
                None => name,
            };
            let ghost before = hap_views(out@);
            out.push(Hap { name: short, data });
            assert(hap_views(out@) =~= before.push(out@.last()@));
        }
        i = i + 1;
    }
    Ok(out)
}

// ---------------------------------------------------------------------------
// The order of installation
// ---------------------------------------------------------------------------

/// `a` comes before `b` in the order of their characters, or is the same.
pub open spec fn not_after(a: Seq<char>, b: Seq<char>) -> bool
    decreases a.len(),
{
    if a.len() == 0 {
        true
    } else if b.len() == 0 {
        false
    } else if a[0] != b[0] {
        a[0] < b[0]
    } else {
        not_after(a.drop_first(), b.drop_first())
    }
}

/// Texts stand in the order of their characters.
pub open spec fn in_order(v: Seq<Seq<char>>) -> bool {
    forall|i: int, j: int| 0 <= i < j < v.len() ==> not_after(#[trigger] v[i], #[trigger] v[j])
}

/// Of two texts one is not after the other.
proof fn one_is_not_after(a: Seq<char>, b: Seq<char>)
    ensures
        not_after(a, b) || not_after(b, a),
    decreases a.len(),
{
    if a.len() > 0 && b.len() > 0 && a[0] == b[0] {
        one_is_not_after(a.drop_first(), b.drop_first());
    }
}

/// The order of texts is transitive.
proof fn order_is_transitive(a: Seq<char>, b: Seq<char>, c: Seq<char>)
    requires
        not_after(a, b),
        not_after(b, c),
    ensures
        not_after(a, c),
    decreases a.len(),
{
    if a.len() > 0 && b.len() > 0 && c.len() > 0 && a[0] == b[0] && b[0] == c[0] {
        order_is_transitive(a.drop_first(), b.drop_first(), c.drop_first());
    }
}

/// Tells whether `a` comes before `b`, or is the same.
fn comes_not_after(a: &str, b: &str) -> (r: bool)
    ensures
        r == not_after(a@, b@),
{
    let x = chars_of(a);
    let y = chars_of(b);
    let mut i: usize = 0;
    assert(x@.skip(0) =~= a@);
    assert(y@.skip(0) =~= b@);
    while i < x.len() && i < y.len() && x[i] == y[i]
        invariant
            i <= x.len(),
            i <= y.len(),
            not_after(a@, b@) == not_after(x@.skip(i as int), y@.skip(i as int)),
        decreases x.len() - i,
    {
        assert(x@.skip(i as int).drop_first() =~= x@.skip(i + 1));
        assert(y@.skip(i as int).drop_first() =~= y@.skip(i + 1));
        i = i + 1;
    }
    if i >= x.len() {
        true
    } else if i >= y.len() {
        false
    } else {
        x[i] < y[i]
    }
}

/// Puts a text into its place among texts that stand in order.
fn insert_in_order(v: &mut Vec<String>, x: String)
    requires
        in_order(text::texts(old(v)@)),
    ensures
        in_order(text::texts(final(v)@)),
        text::texts(final(v)@).to_multiset() == text::texts(old(v)@).to_multiset().insert(x@),
{
    let ghost before = text::texts(v@);
    let mut p: usize = v.len();
    while p > 0 && !comes_not_after(v[p - 1].as_str(), x.as_str())
        invariant
            p <= v.len(),
            before == text::texts(v@),
            in_order(before),
            forall|j: int| p <= j < before.len() ==> not_after(x@, #[trigger] before[j]),
        ensures
            p <= v.len(),
            before == text::texts(v@),
            forall|j: int| p <= j < before.len() ==> not_after(x@, #[trigger] before[j]),
            p > 0 ==> not_after(before[p - 1], x@),
        decreases p,
    {
        proof {
            one_is_not_after(x@, before[p - 1]);
        }
        p = p - 1;
    }
    proof {
        assert forall|j: int| 0 <= j < p implies not_after(#[trigger] before[j], x@) by {
            if j < p - 1 {
                order_is_transitive(before[j], before[p - 1], x@);
            }
        }
    }
    let ghost key = x@;
    v.insert(p, x);
    proof {
        let after = text::texts(v@);
        assert(after =~= before.insert(p as int, key));
        vstd::seq_lib::to_multiset_insert(before, p as int, key);
        assert forall|i: int, j: int| 0 <= i < j < after.len() implies not_after(
            #[trigger] after[i],
            #[trigger] after[j],
        ) by {
            if i < p && j < p {
                assert(after[i] == before[i] && after[j] == before[j]);
            } else if i < p && j > p {
                assert(after[i] == before[i] && after[j] == before[j - 1]);
            } else if i > p {
                assert(after[i] == before[i - 1] && after[j] == before[j - 1]);
            } else if i == p {
                assert(after[j] == before[j - 1]);
            } else {
                assert(after[i] == before[i]);
            }
        }
    }
}

/// The names of packages.
pub open spec fn hap_names(haps: Seq<HapView>) -> Seq<Seq<char>> {
    haps.map_values(|h: HapView| h.name)
}

/// The packages of an archive, in the order in which they are written to files, and
/// the names of the files, in the order in which they are installed.
#[derive(Debug, PartialEq, Eq)]
pub struct Extracted {
    pub haps: Vec<Hap>,
    pub order: Vec<String>,
}

/// The packages in an archive. `separator` divides paths.
pub fn extract_haps_from_app(archive: &[u8], separator: char) -> (r: Result<Extracted, AppError>)
    ensures
        match r {
            Ok(x) => {
                &&& haps_in(archive@, separator) == Ok::<_, AppErrorView>(hap_views(x.haps@))
                &&& in_order(text::texts(x.order@))
                &&& text::texts(x.order@).to_multiset() == hap_names(hap_views(x.haps@)).to_multiset()
            },
            Err(e) => haps_in(archive@, separator) == Err::<Seq<HapView>, _>(e@),
        },
{
    let haps = match read_haps(archive, separator) {
        Ok(haps) => haps,
        Err(e) => return Err(e),
    };
    let mut order: Vec<String> = Vec::new();
    let ghost names = hap_names(hap_views(haps@));
    let mut i: usize = 0;
    assert(names.take(0) =~= text::texts(order@));
    while i < haps.len()
        invariant
            i <= haps.len(),
            names == hap_names(hap_views(haps@)),
            in_order(text::texts(order@)),
            text::texts(order@).to_multiset() == names.take(i as int).to_multiset(),
        decreases haps.len() - i,
    {
        let name = copy_text(haps[i].name.as_str());
        proof {
            assert(names[i as int] == name@);
            assert(names.take(i + 1) =~= names.take(i as int).push(name@));
            vstd::seq_lib::to_multiset_build(names.take(i as int), name@);
        }
        insert_in_order(&mut order, name);
        i = i + 1;
    }
    assert(names.take(i as int) =~= names);
    Ok(Extracted { haps, order })
}

/// The packages of an archive that are to be installed: there has to be one.
pub fn haps_to_install(archive: &[u8], separator: char) -> (r: Result<Extracted, AppError>)
    ensures
        match r {
            Ok(x) => {
                &&& haps_in(archive@, separator) == Ok::<_, AppErrorView>(hap_views(x.haps@))
                &&& x.haps@.len() > 0
                &&& in_order(text::texts(x.order@))
                &&& text::texts(x.order@).to_multiset() == hap_names(hap_views(x.haps@)).to_multiset()
            },
            Err(e) => if haps_in(archive@, separator) == Ok::<_, AppErrorView>(
                Seq::<HapView>::empty(),
            ) {
                e@ == AppErrorView::NoHap
            } else {
                haps_in(archive@, separator) == Err::<Seq<HapView>, _>(e@)
            },
        },
{
    match extract_haps_from_app(archive, separator) {
        Err(e) => Err(e),
        Ok(x) => {
            if x.haps.len() == 0 {
                assert(hap_views(x.haps@) =~= Seq::<HapView>::empty());
                Err(AppError::NoHap)
            } else {
                assert(hap_views(x.haps@).len() == x.haps@.len());
                Ok(x)
            }
        },
    }
}

// ---------------------------------------------------------------------------
// The command
// ---------------------------------------------------------------------------

/// The path that the words of the command give.
pub open spec fn app_path(params: Seq<Seq<char>>) -> Option<Seq<char>> {
    let at = if params.len() > 2 && params[1] == "-cwd"@ {
        3int
    } else {
        1int
    };
    if params.len() > at {
        Some(params[at])
    } else {
        None
    }
}

/// The path that the words of the command give.
pub fn find_app_path(params: &[String]) -> (r: Result<String, AppError>)
    ensures
        match r {
            Ok(p) => app_path(text::texts(params@)) == Some(p@),
            Err(e) => app_path(text::texts(params@)) is None && e@ == AppErrorView::MissingPath,
        },
{
    let mut at: usize = 1;
    if params.len() > 2 {
        assert(text::texts(params@)[1] == params@[1]@);
        if same_text(params[1].as_str(), "-cwd") {
            at = 3;
        }
    }
    if params.len() > at {
        assert(text::texts(params@)[at as int] == params@[at as int]@);
        Ok(copy_text(params[at].as_str()))
    } else {
        Err(AppError::MissingPath)
    }
}

/// The file is an archive of packages.
pub open spec fn is_pack(path: Seq<char>, separator: char) -> bool {
    path::extension(path, separator) is Some && text::lowered(path::extension(path, separator)->Some_0)
        == text::lowered("app"@)
}

/// Tells whether the file is an archive of packages.
pub fn is_app_pack(path: &str, separator: char) -> (r: bool)
    ensures
        r == is_pack(path@, separator),
{
    match file_extension(path, separator) {
        Some(e) => same_ignoring_case(e.as_str(), "app"),
        None => false,
    }
}

/// A package that is being installed.
pub struct HapInstall {
    channel_id: u32,
    file_size: u64,
    file_name: String,
}

/// A package that is being installed.
pub struct HapInstallView {
    pub channel_id: u32,
    pub file_size: u64,
    pub file_name: Seq<char>,
}

impl View for HapInstall {
    type V = HapInstallView;

    closed spec fn view(&self) -> HapInstallView {
        HapInstallView {
            channel_id: self.channel_id,
            file_size: self.file_size,
            file_name: self.file_name@,
        }
    }
}

/// The request to take a package.
pub open spec fn install_request(v: HapInstallView) -> TaskMessageView {
    TaskMessageView {
        channel_id: v.channel_id,
        command: HdcCommand::AppCheck,
        payload: tlv::slots_bytes(
            transfer::file_config(
                v.file_size,
                Seq::empty(),
                "/data/local/tmp/"@ + v.file_name,
                v.file_name,
                "install"@,
            ).slots(),
        ),
    }
}

/// What the daemon was asked to do with a package.
pub open spec fn mode_name(mode: u8) -> Seq<char> {
    if mode == 1 {
        "install"@
    } else if mode == 2 {
        "uninstall"@
    } else if mode == 3 {
        "sideload"@
    } else {
        "unknown"@
    }
}

/// What a failed installation is reported with.
pub open spec fn install_failure(mode: u8, said: Seq<char>) -> Seq<char> {
    "[Fail]App "@ + mode_name(mode) + " failed: "@ + said
}

/// What a failed installation is reported with.
fn make_install_failure(mode: u8, said: &str) -> (r: String)
    ensures
        r@ == install_failure(mode, said@),
{
    let name = if mode == 1 {
        "install"
    } else if mode == 2 {
        "uninstall"
    } else if mode == 3 {
        "sideload"
    } else {
        "unknown"
    };
    let mut s = concat3("[Fail]App ", name, " failed: ");
    s.append(said);
    s
}

/// What comes of a reply after the pieces of a package went out.
#[derive(Debug, PartialEq, Eq)]
pub enum InstallStep {
    /// The reply does not count.
    Pass,
    /// The user is told something.
    Tell(String),
    /// The package is installed, and the user is told so.
    Done(String),
    /// The task failed.
    Fail(String),
}

/// What comes of a reply after the pieces of a package went out.
pub enum InstallStepView {
    Pass,
    Tell(Seq<char>),
    Done(Seq<char>),
    Fail(Seq<char>),
}

impl View for InstallStep {
    type V = InstallStepView;

    open spec fn view(&self) -> InstallStepView {
        match *self {
            InstallStep::Pass => InstallStepView::Pass,
            InstallStep::Tell(t) => InstallStepView::Tell(t@),
            InstallStep::Done(t) => InstallStepView::Done(t@),
            InstallStep::Fail(t) => InstallStepView::Fail(t@),
        }
    }
}

/// What comes of a reply after the pieces of a package went out.
pub open spec fn on_install_reply(v: HapInstallView, reply: ReplyView) -> InstallStepView {
    match reply {
        ReplyView::TimedOut => InstallStepView::Fail(TransferError::NoResult.text()),
        ReplyView::Closed => InstallStepView::Fail(
            install_failure(0, TransferError::ResponseClosed.text()),
        ),
        ReplyView::Message(m) => if m.command == HdcCommand::AppFinish {
            if m.payload.len() < 2 {
                InstallStepView::Fail(
                    install_failure(0, TransferError::BadFinish(HdcCommand::AppFinish).text()),
                )
            } else if m.payload[1] == 0 {
                InstallStepView::Done("AppMod finish: "@ + v.file_name + "\r\n"@)
            } else {
                InstallStepView::Fail(
                    install_failure(m.payload[0], text::utf8_lossy(m.payload.skip(2))),
                )
            }
        } else if m.command == HdcCommand::KernelEcho || m.command == HdcCommand::KernelEchoRaw {
            InstallStepView::Tell(text::utf8_lossy(m.payload))
        } else if m.command == HdcCommand::KernelChannelClose {
            InstallStepView::Fail(install_failure(0, TransferError::ChannelClosed.text()))
        } else {
            InstallStepView::Pass
        },
    }
}

impl HapInstall {
    /// The task for a package of the given size. `separator` divides paths.
    pub fn new(channel_id: u32, file_size: u64, path: &str, separator: char) -> (r: Self)
        ensures
            r@ == new_install(channel_id, file_size, path@, separator),
    {
        let file_name: String = match file_name(path, separator) {
            Some(name) => name,
            None => "app.hap".to_owned(),
        };
        HapInstall { channel_id, file_size, file_name }
    }

    /// The message that goes out first: the daemon prepares its task.
    pub fn init(&self) -> (r: TaskMessage)
        ensures
            r@ == install_opening(self@.channel_id),
    {
        make_bare(self.channel_id, HdcCommand::AppInit)
    }

    /// The request to take the package.
    pub fn request(&self) -> (r: TaskMessage)
        ensures
            r@ == install_request(self@),
    {
        let path = concat2("/data/local/tmp/", self.file_name.as_str());
        let payload = config_bytes(
            self.file_size,
            String::new().as_str(),
            path.as_str(),
            self.file_name.as_str(),
            "install",
        );
        TaskMessage { channel_id: self.channel_id, command: HdcCommand::AppCheck, payload }
    }

    /// What comes of a reply after the pieces went out.
    pub fn on_reply(&self, reply: &Reply) -> (r: InstallStep)
        ensures
            r@ == on_install_reply(self@, reply@),
    {
        match reply {
            Reply::TimedOut => InstallStep::Fail(TransferError::NoResult.message()),
            Reply::Closed => InstallStep::Fail(
                make_install_failure(0, TransferError::ResponseClosed.message().as_str()),
            ),
            Reply::Message(m) => match m.command {
                HdcCommand::AppFinish => {
                    let n: usize = m.payload.len();
                    if n < 2 {
                        InstallStep::Fail(
                            make_install_failure(
                                0,
                                TransferError::BadFinish(HdcCommand::AppFinish).message().as_str(),
                            ),
                        )
                    } else if m.payload[1] == 0 {
                        InstallStep::Done(
                            concat3("AppMod finish: ", self.file_name.as_str(), "\r\n"),
                        )
                    } else {
                        let rest = copy_range(m.payload.as_slice(), 2, n);
                        assert(rest@ =~= m.payload@.skip(2));
                        let said = lossy_text(rest.as_slice());
                        InstallStep::Fail(make_install_failure(m.payload[0], said.as_str()))
                    }
                },
                HdcCommand::KernelEcho | HdcCommand::KernelEchoRaw => InstallStep::Tell(
                    lossy_text(m.payload.as_slice()),
                ),
                HdcCommand::KernelChannelClose => InstallStep::Fail(
                    make_install_failure(0, TransferError::ChannelClosed.message().as_str()),
                ),
                _ => InstallStep::Pass,
            },
        }
    }
}

/// The package to install is the word behind the name of the command, or behind the directory
/// of the client where that is told.
pub proof fn package_is_found(name: Seq<char>, cwd: Seq<char>, path: Seq<char>, rest: Seq<Seq<char>>)
    requires
        path != "-cwd"@,
    ensures
        app_path(seq![name, path] + rest) == Some(path),
        app_path(seq![name, "-cwd"@, cwd, path] + rest) == Some(path),
        app_path(seq![name]) is None,
        app_path(seq![name, "-cwd"@, cwd]) is None,
{
    let a = seq![name, path] + rest;
    let b = seq![name, "-cwd"@, cwd, path] + rest;
    assert(a[1] == path);
    assert(b[1] == "-cwd"@ && b[3] == path);
}

/// The packages in a pack are the entries whose names end in `.hap`, whatever their case.
pub proof fn packages_are_told_by_their_name(name: Seq<char>)
    ensures
        is_hap(name + ".hap"@),
        is_hap(name + ".HAP"@),
        !is_hap(name + ".hsp"@),
        !is_hap(name + "/"@),
{
    reveal_strlit(".hap");
    reveal_strlit(".HAP");
    reveal_strlit(".hsp");
    reveal_strlit("/");
    let a = text::lowered(name + ".hap"@);
    let b = text::lowered(name + ".HAP"@);
    let c = text::lowered(name + ".hsp"@);
    let d = text::lowered(name + "/"@);
    assert(a.subrange(a.len() - 4, a.len() as int) =~= ".hap"@);
    assert(b.subrange(b.len() - 4, b.len() as int) =~= ".hap"@);
    assert(c.subrange(c.len() - 4, c.len() as int)[2] == 's');
    assert(".hap"@[2] == 'a');
    assert(".hap"@[3] == 'p');
    if d.len() >= 4 {
        assert(d.subrange(d.len() - 4, d.len() as int)[3] == '/');
    }
}

/// A package is offered to the device under its own name in the directory for temporary files,
/// with its size, to be installed.
pub proof fn package_is_offered(v: HapInstallView)
    requires
        encode_utf8(v.file_name).len() < 0xffff_0000,
    ensures
        ({
            let m = install_request(v);
            let read = TransferConfigView::parsed(m.payload);
            &&& m.channel_id == v.channel_id
            &&& m.command == HdcCommand::AppCheck
            &&& read is Ok
            &&& read->Ok_0.file_size == v.file_size
            &&& read->Ok_0.path == "/data/local/tmp/"@ + v.file_name
            &&& read->Ok_0.optional_name == v.file_name
            &&& read->Ok_0.function_name == "install"@
        }),
{
    reveal_strlit("/data/local/tmp/");
    reveal_strlit("install");
    is_ascii_chars_encode_utf8("/data/local/tmp/"@);
    is_ascii_chars_encode_utf8("install"@);
    assert(encode_utf8(Seq::<char>::empty()).len() == 0);
    labeled::encode_of_concat("/data/local/tmp/"@, v.file_name);
    transfer::description_is_understood(
        v.file_size,
        Seq::empty(),
        "/data/local/tmp/"@ + v.file_name,
        v.file_name,
        "install"@,
    );
}

/// The user is told that a package was installed where the device says so with a zero, and
/// otherwise what the device says of the failure. What the device prints meanwhile is told too.
pub proof fn installation_is_told(v: HapInstallView, channel_id: u32, said: Seq<char>, code: u8)
    ensures
        on_install_reply(
            v,
            ReplyView::Message(
                TaskMessageView {
                    channel_id,
                    command: HdcCommand::AppFinish,
                    payload: seq![1u8, 0u8] + encode_utf8(said),
                },
            ),
        ) == InstallStepView::Done("AppMod finish: "@ + v.file_name + "\r\n"@),
        code != 0 ==> on_install_reply(
            v,
            ReplyView::Message(
                TaskMessageView {
                    channel_id,
                    command: HdcCommand::AppFinish,
                    payload: seq![1u8, code] + encode_utf8(said),
                },
            ),
        ) == InstallStepView::Fail("[Fail]App "@ + "install"@ + " failed: "@ + said),
        code != 0 ==> on_install_reply(
            v,
            ReplyView::Message(
                TaskMessageView {
                    channel_id,
                    command: HdcCommand::AppFinish,
                    payload: seq![2u8, code] + encode_utf8(said),
                },
            ),
        ) == InstallStepView::Fail("[Fail]App "@ + "uninstall"@ + " failed: "@ + said),
        code != 0 ==> on_install_reply(
            v,
            ReplyView::Message(
                TaskMessageView {
                    channel_id,
                    command: HdcCommand::AppFinish,
                    payload: seq![3u8, code] + encode_utf8(said),
                },
            ),
        ) == InstallStepView::Fail("[Fail]App "@ + "sideload"@ + " failed: "@ + said),
        forall|c: HdcCommand|
            c == HdcCommand::KernelEcho || c == HdcCommand::KernelEchoRaw
                ==> #[trigger] on_install_reply(
                v,
                ReplyView::Message(
                    TaskMessageView { channel_id, command: c, payload: encode_utf8(said) },
                ),
            ) == InstallStepView::Tell(said),
        on_install_reply(
            v,
            ReplyView::Message(
                TaskMessageView {
                    channel_id,
                    command: HdcCommand::KernelChannelClose,
                    payload: seq![0u8],
                },
            ),
        ) is Fail,
        on_install_reply(v, ReplyView::Closed) is Fail,
        on_install_reply(v, ReplyView::TimedOut) is Fail,
        on_install_reply(
            v,
            ReplyView::Message(
                TaskMessageView {
                    channel_id,
                    command: HdcCommand::AppBegin,
                    payload: Seq::empty(),
                },
            ),
        ) == InstallStepView::Pass,
{
    text::text_of_its_bytes(said);
    let b = encode_utf8(said);
    assert((seq![1u8, code] + b).skip(2) =~= b);
    assert((seq![2u8, code] + b).skip(2) =~= b);
    assert((seq![3u8, code] + b).skip(2) =~= b);
}

/// The message that opens an installation.
pub open spec fn install_opening(channel_id: u32) -> TaskMessageView {
    transfer::bare_message(channel_id, HdcCommand::AppInit)
}

/// A package that is to be installed.
pub open spec fn new_install(
    channel_id: u32,
    file_size: u64,
    path: Seq<char>,
    separator: char,
) -> HapInstallView {
    HapInstallView {
        channel_id,
        file_size,
        file_name: match path::last_name(path, separator) {
            Some(name) => name,
            None => "app.hap"@,
        },
    }
}

/// A package goes to the device under its own name, with its size, on its channel, whatever
/// directory it stands in.
pub proof fn package_keeps_its_name(
    channel_id: u32,
    file_size: u64,
    dir: Seq<char>,
    name: Seq<char>,
)
    requires
        path::plain_name(name, path::BACKSLASH),
    ensures
        new_install(channel_id, file_size, dir + seq!['/'] + name, '/') == (HapInstallView {
            channel_id,
            file_size,
            file_name: name,
        }),
        new_install(channel_id, file_size, name, '/').file_name == name,
        install_opening(channel_id) == (TaskMessageView {
            channel_id,
            command: HdcCommand::AppInit,
            payload: Seq::empty(),
        }),
{
    path::last_name_stands_last(dir, name, 'c');
}

/// Packages are installed in the order of their names, letter by letter: a name stands before a
/// longer one that it begins, and where two names differ the smaller letter decides.
pub proof fn names_are_ordered_by_letters(
    start: Seq<char>,
    a: char,
    b: char,
    x: Seq<char>,
    y: Seq<char>,
)
    requires
        a < b,
    ensures
        not_after(start, start + x),
        x.len() > 0 ==> !not_after(start + x, start),
        not_after(start + seq![a] + x, start + seq![b] + y),
        !not_after(start + seq![b] + y, start + seq![a] + x),
    decreases start.len(),
{
    let p = start + seq![a] + x;
    let q = start + seq![b] + y;
    if start.len() > 0 {
        let rest = start.drop_first();
        names_are_ordered_by_letters(rest, a, b, x, y);
        assert((start + x).drop_first() =~= rest + x);
        assert(p.drop_first() =~= rest + seq![a] + x);
        assert(q.drop_first() =~= rest + seq![b] + y);
        assert((start + x)[0] == start[0]);
        assert(p[0] == start[0] && q[0] == start[0]);
    } else {
        assert(p[0] == a && q[0] == b);
    }
}

/// A package is what an entry of an archive holds, under the last name of the entry, and the
/// name of the entry is that of a package.
pub open spec fn comes_from(archive: Seq<u8>, j: nat, separator: char, h: HapView) -> bool {
    &&& zip_entry_name(archive, j) is Ok
    &&& is_hap(zip_entry_name(archive, j)->Ok_0)
    &&& zip_entry_data(archive, j) is Ok
    &&& h.data == zip_entry_data(archive, j)->Ok_0
    &&& h.name == hap_file_name(zip_entry_name(archive, j)->Ok_0, separator)
}

/// Every package of an archive is taken out, and nothing else of it: what is taken out is the
/// data of an entry whose name is that of a package.
pub proof fn packages_are_taken_out(
    archive: Seq<u8>,
    n: nat,
    separator: char,
    i: nat,
    h: HapView,
)
    requires
        haps_among(archive, n, separator) is Ok,
    ensures
        ({
            let haps = haps_among(archive, n, separator)->Ok_0;
            &&& haps.len() <= n
            &&& i < n ==> zip_entry_name(archive, i) is Ok
            &&& i < n && is_hap(zip_entry_name(archive, i)->Ok_0) ==> zip_entry_data(
                archive,
                i,
            ) is Ok
            &&& i < n && comes_from(archive, i, separator, h) ==> haps.contains(h)
            &&& haps.contains(h) ==> exists|j: nat| j < n && #[trigger] comes_from(archive, j, separator, h)
        }),
    decreases n,
{
    if n > 0 {
        let l = (n - 1) as nat;
        packages_are_taken_out(archive, l, separator, i, h);
        let before = haps_among(archive, l, separator)->Ok_0;
        let haps = haps_among(archive, n, separator)->Ok_0;
        let name = zip_entry_name(archive, l)->Ok_0;
        if is_hap(name) {
            assert(comes_from(archive, l, separator, haps[before.len() as int]));
            if before.contains(h) {
                let j = choose|j: int| 0 <= j < before.len() && before[j] == h;
                assert(haps[j] == h);
            }
            if haps.contains(h) {
                let j = choose|j: int| 0 <= j < haps.len() && haps[j] == h;
                if j < before.len() {
                    assert(before[j] == h);
                    let k = choose|k: nat| k < l && #[trigger] comes_from(archive, k, separator, h);
                    assert(k < n && comes_from(archive, k, separator, h));
                } else {
                    assert(comes_from(archive, l, separator, h));
                }
            }
            if i == l && comes_from(archive, i, separator, h) {
                assert(haps[before.len() as int] == h);
            }
        } else if haps.contains(h) {
            let k = choose|k: nat| k < l && #[trigger] comes_from(archive, k, separator, h);
            assert(k < n && comes_from(archive, k, separator, h));
        }
    }
}

/// A file whose ending is `app`, in small or capital letters, is an archive of packages, and no
/// other is.
pub proof fn archives_are_told_by_their_ending(dir: Seq<char>, stem: Seq<char>, ending: Seq<char>)
    requires
        stem.len() > 0,
        !ending.contains('.'),
        path::plain_name(stem + seq!['.'] + ending, path::BACKSLASH),
        path::plain_name(ending, path::BACKSLASH),
    ensures
        is_pack(dir + seq!['/'] + (stem + seq!['.'] + ending), '/') <==> text::lowered(ending)
            == "app"@,
        !is_pack(dir + seq!['/'] + ending, '/'),
{
    path::extension_follows_the_last_stop(dir, stem, ending);
    reveal_strlit("app");
    assert(text::lowered("app"@) =~= "app"@);
}

} // verus!
