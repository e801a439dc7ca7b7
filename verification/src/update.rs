//! Deciding on an update of the program.
use crate::text::{self, ends_with, push_decimal, starts_with};
use vstd::prelude::*;
use vstd::string::StringExecFns;

verus! {

/// The platforms that releases are made for.
#[derive(Debug, Clone, Copy, PartialEq, Eq, Structural)]
pub enum UpdatablePlatform {
    LinuxGNU,
    LinuxMusl,
    WindowsMSVC,
    WindowsMingw,
    MacOSAppleSilicon,
}

impl UpdatablePlatform {
    /// The name of the platform's asset in a release.
    pub open spec fn asset_name(self) -> Seq<char> {
        match self {
            UpdatablePlatform::LinuxGNU => "insanity-linux-gnu"@,
            UpdatablePlatform::LinuxMusl => "insanity-linux-musl"@,
            UpdatablePlatform::WindowsMSVC => "insanity-windows-msvc"@,
            UpdatablePlatform::WindowsMingw => "insanity-windows-mingw"@,
            UpdatablePlatform::MacOSAppleSilicon => "insanity-macos-apple-silicon"@,
        }
    }

    pub fn get_asset_name(&self) -> (name: String)
        ensures
            name@ == self.asset_name(),
    {
        match self {
            UpdatablePlatform::LinuxGNU => "insanity-linux-gnu".to_owned(),
            UpdatablePlatform::LinuxMusl => "insanity-linux-musl".to_owned(),
            UpdatablePlatform::WindowsMSVC => "insanity-windows-msvc".to_owned(),
            UpdatablePlatform::WindowsMingw => "insanity-windows-mingw".to_owned(),
            UpdatablePlatform::MacOSAppleSilicon => "insanity-macos-apple-silicon".to_owned(),
        }
    }
}

/// Two platforms never share an asset: neither name begins with the other.
pub proof fn asset_names_are_apart(a: UpdatablePlatform, b: UpdatablePlatform)
    requires
        a != b,
    ensures
        !a.asset_name().is_prefix_of(b.asset_name()),
{
    reveal_strlit("insanity-linux-gnu");
    reveal_strlit("insanity-linux-musl");
    reveal_strlit("insanity-windows-msvc");
    reveal_strlit("insanity-windows-mingw");
    reveal_strlit("insanity-macos-apple-silicon");
    let (x, y) = (a.asset_name(), b.asset_name());
    if x.is_prefix_of(y) {
        assert(x.len() <= y.len());
        assert(x[9] == y[9]);
        assert(x[15] == y[15]);
        assert(a == UpdatablePlatform::WindowsMSVC || a == UpdatablePlatform::WindowsMingw ==> x[18]
            == y[18]);
    }
}

/// What stands at a place in a document: nothing where the document is no JSON, `Some(None)`
/// where there is no text at the place.
pub uninterp spec fn json_text_at(document: Seq<char>, place: Seq<char>) -> Option<
    Option<Seq<char>>,
>;

/// How long the list at a place in a document is, in the same way.
pub uninterp spec fn json_len_at(document: Seq<char>, place: Seq<char>) -> Option<Option<nat>>;

/// A text that may be missing, as a value.
pub open spec fn text_view(text: Option<String>) -> Option<Seq<char>> {
    match text {
        Some(text) => Some(text@),
        None => None,
    }
}

/// Trusted: `serde_json::from_str` reads a document, `Value::pointer` finds the place by its path,
/// and `Value::as_str` gives the text there. The result depends on the document and the path
/// alone.
#[verifier::external_body]
fn json_text(document: &str, place: &str) -> (text: Option<Option<String>>)
    ensures
        match text {
            Some(text) => json_text_at(document@, place@) == Some(text_view(text)),
            None => json_text_at(document@, place@) is None,
        },
{
    let value: serde_json::Value = serde_json::from_str(document).ok()?;
    match value.pointer(place) {
        Some(found) => Some(found.as_str().map(String::from)),
        None => Some(None),
    }
}

/// Trusted: `serde_json::from_str` reads a document, `Value::pointer` finds the place by its path,
/// and `Value::as_array` gives the list there. The result depends on the document and the path
/// alone.
#[verifier::external_body]
fn json_len(document: &str, place: &str) -> (len: Option<Option<usize>>)
    ensures
        match len {
            Some(Some(n)) => json_len_at(document@, place@) == Some(Some(n as nat)),
            Some(None) => json_len_at(document@, place@) == Some(None::<nat>),
            None => json_len_at(document@, place@) is None,
        },
{
    let value: serde_json::Value = serde_json::from_str(document).ok()?;
    match value.pointer(place) {
        Some(found) => Some(found.as_array().map(Vec::len)),
        None => Some(None),
    }
}

/// A file of a release.
#[derive(Debug)]
pub struct Asset {
    pub name: Option<String>,
    pub browser_download_url: Option<String>,
}

/// A release: its version, and its files.
#[derive(Debug)]
pub struct Release {
    pub tag_name: Option<String>,
    pub assets: Option<Vec<Asset>>,
}

/// The place of a field of asset `i`.
pub open spec fn asset_place(i: nat, field: Seq<char>) -> Seq<char> {
    "/assets/"@ + text::decimal(i) + field
}

fn asset_field(i: usize, field: &str) -> (place: String)
    ensures
        place@ == asset_place(i as nat, field@),
{
    let mut place: String = "/assets/".to_owned();
    push_decimal(&mut place, i as u64);
    place.append(field);
    place
}

/// The text at a place of a document that is JSON.
pub open spec fn text_at(document: Seq<char>, place: Seq<char>) -> Option<Seq<char>> {
    match json_text_at(document, place) {
        Some(text) => text,
        None => None,
    }
}

fn field_text(document: &str, place: &str) -> (text: Option<String>)
    ensures
        text_view(text) == text_at(document@, place@),
{
    match json_text(document, place) {
        Some(text) => text,
        None => None,
    }
}

/// `release` is what a document says, place by place.
pub open spec fn reads(document: Seq<char>, release: Release) -> bool {
    &&& json_text_at(document, "/tag_name"@) == Some(text_view(release.tag_name))
    &&& match json_len_at(document, "/assets"@) {
        Some(Some(n)) => {
            &&& release.assets matches Some(assets)
            &&& assets@.len() == n
            &&& forall|i: int|
                0 <= i < n ==> text_view((#[trigger] assets@[i]).name) == text_at(
                    document,
                    asset_place(i as nat, "/name"@),
                ) && text_view(assets@[i].browser_download_url) == text_at(
                    document,
                    asset_place(i as nat, "/browser_download_url"@),
                )
        },
        _ => release.assets is None,
    }
}

/// Reads what a release document says. `None` where it is no JSON.
pub fn read_release(document: &str) -> (release: Option<Release>)
    ensures
        match release {
            Some(release) => reads(document@, release),
            None => json_text_at(document@, "/tag_name"@) is None,
        },
{
    let tag_name: Option<String> = match json_text(document, "/tag_name") {
        Some(tag) => tag,
        None => {
            return None;
        },
    };
    let n: usize = match json_len(document, "/assets") {
        Some(Some(n)) => n,
        _ => {
            return Some(Release { tag_name, assets: None });
        },
    };
    let mut assets: Vec<Asset> = Vec::new();
    let mut i: usize = 0;
    while i < n
        invariant
            i <= n,
            assets@.len() == i,
            forall|k: int|
                0 <= k < i ==> text_view((#[trigger] assets@[k]).name) == text_at(
                    document@,
                    asset_place(k as nat, "/name"@),
                ) && text_view(assets@[k].browser_download_url) == text_at(
                    document@,
                    asset_place(k as nat, "/browser_download_url"@),
                ),
        decreases n - i,
    {
        let name_place: String = asset_field(i, "/name");
        let url_place: String = asset_field(i, "/browser_download_url");
        assets.push(
            Asset {
                name: field_text(document, name_place.as_str()),
                browser_download_url: field_text(document, url_place.as_str()),
            },
        );
        i += 1;
    }
    Some(Release { tag_name, assets: Some(assets) })
}

/// Why no update can be made.
#[derive(Debug, Clone, Copy, PartialEq, Eq, Structural)]
pub enum UpdateFault {
    TagMissing,
    AssetsMissing,
    PlatformUnsupported,
    AssetNameMissing,
    AssetNotFound,
    UrlMissing,
}

impl UpdateFault {
    pub fn message(&self) -> (message: &'static str)
        ensures
            message@ == match *self {
                UpdateFault::TagMissing => "tag_name is not a string"@,
                UpdateFault::AssetsMissing => "no assets in latest release"@,
                UpdateFault::PlatformUnsupported =>
                    "This platform does not support updating through the cli"@,
                UpdateFault::AssetNameMissing => "asset name is not a string"@,
                UpdateFault::AssetNotFound => "no asset for current platform"@,
                UpdateFault::UrlMissing => "asset download url is not a string"@,
            },
    {
        match self {
            UpdateFault::TagMissing => "tag_name is not a string",
            UpdateFault::AssetsMissing => "no assets in latest release",
            UpdateFault::PlatformUnsupported => {
                "This platform does not support updating through the cli"
            },
            UpdateFault::AssetNameMissing => "asset name is not a string",
            UpdateFault::AssetNotFound => "no asset for current platform",
            UpdateFault::UrlMissing => "asset download url is not a string",
        }
    }
}

/// What is to be done about a release.
#[derive(Debug)]
pub enum UpdatePlan {
    UpToDate,
    Download { asset_name: String, url: String },
}

/// The first asset from `i` on whose name begins with `prefix`. A nameless one before it is a
/// fault.
pub open spec fn asset_for(assets: Seq<Asset>, prefix: Seq<char>, i: int) -> Result<
    int,
    UpdateFault,
>
    decreases assets.len() - i,
{
    if i >= assets.len() {
        Err(UpdateFault::AssetNotFound)
    } else {
        match assets[i].name {
            None => Err(UpdateFault::AssetNameMissing),
            Some(name) => if prefix.is_prefix_of(name@) {
                Ok(i)
            } else {
                asset_for(assets, prefix, i + 1)
            },
        }
    }
}

/// What is to be done about a release, over the texts in it.
pub open spec fn planned(
    release: Release,
    current_version: Seq<char>,
    platform: Option<UpdatablePlatform>,
    force: bool,
) -> Result<Option<(Seq<char>, Seq<char>)>, UpdateFault> {
    match release.tag_name {
        None => Err(UpdateFault::TagMissing),
        Some(tag) => if !force && tag@ == current_version {
            Ok(None)
        } else {
            match release.assets {
                None => Err(UpdateFault::AssetsMissing),
                Some(assets) => match platform {
                    None => Err(UpdateFault::PlatformUnsupported),
                    Some(platform) => match asset_for(assets@, platform.asset_name(), 0) {
                        Err(fault) => Err(fault),
                        Ok(i) => match assets@[i].browser_download_url {
                            None => Err(UpdateFault::UrlMissing),
                            Some(url) => Ok(Some((platform.asset_name(), url@))),
                        },
                    },
                },
            }
        },
    }
}

/// `plan` is what was planned.
pub open spec fn carries_out(
    planned: Result<Option<(Seq<char>, Seq<char>)>, UpdateFault>,
    plan: Result<UpdatePlan, UpdateFault>,
) -> bool {
    match planned {
        Err(fault) => plan == Err::<UpdatePlan, UpdateFault>(fault),
        Ok(None) => plan == Ok::<UpdatePlan, UpdateFault>(UpdatePlan::UpToDate),
        Ok(Some((asset, from))) => plan matches Ok(UpdatePlan::Download { asset_name, url })
            && asset_name@ == asset && url@ == from,
    }
}

fn find_asset(assets: &Vec<Asset>, prefix: &str) -> (found: Result<usize, UpdateFault>)
    ensures
        match asset_for(assets@, prefix@, 0) {
            Ok(i) => found matches Ok(k) && k == i && 0 <= i < assets@.len(),
            Err(fault) => found == Err::<usize, UpdateFault>(fault),
        },
{
    let mut i: usize = 0;
    while i < assets.len()
        invariant
            i <= assets@.len(),
            asset_for(assets@, prefix@, 0) == asset_for(assets@, prefix@, i as int),
        decreases assets@.len() - i,
    {
        match &assets[i].name {
            None => {
                return Err(UpdateFault::AssetNameMissing);
            },
            Some(name) => {
                if starts_with(name.as_str(), prefix) {
                    return Ok(i);
                }
            },
        }
        i += 1;
    }
    Err(UpdateFault::AssetNotFound)
}

/// Decides what is to be done about a release: nothing where the program is up to date, unless an
/// update is forced; else the first asset for the platform is to be downloaded.
pub fn plan_update(
    release: &Release,
    current_version: &String,
    platform: Option<UpdatablePlatform>,
    force: bool,
) -> (plan: Result<UpdatePlan, UpdateFault>)
    ensures
        carries_out(planned(*release, current_version@, platform, force), plan),
{
    let up_to_date: bool = match &release.tag_name {
        None => {
            return Err(UpdateFault::TagMissing);
        },
        Some(tag) => !force && *tag == *current_version,
    };
    if up_to_date {
        return Ok(UpdatePlan::UpToDate);
    }
    let assets: &Vec<Asset> = match &release.assets {
        None => {
            return Err(UpdateFault::AssetsMissing);
        },
        Some(assets) => assets,
    };
    let asset_name: String = match platform {
        None => {
            return Err(UpdateFault::PlatformUnsupported);
        },
        Some(platform) => platform.get_asset_name(),
    };
    match find_asset(assets, asset_name.as_str()) {
        Err(fault) => Err(fault),
        Ok(i) => match &assets[i].browser_download_url {
            None => Err(UpdateFault::UrlMissing),
            Some(url) => Ok(UpdatePlan::Download { asset_name, url: url.clone() }),
        },
    }
}

/// Decides what is to be done about a release document. `None` where it is no JSON.
pub fn plan_from_document(
    document: &str,
    current_version: &String,
    platform: Option<UpdatablePlatform>,
    force: bool,
) -> (plan: Option<Result<UpdatePlan, UpdateFault>>)
    ensures
        match plan {
            Some(plan) => exists|release: Release| #[trigger]
                reads(document@, release) && carries_out(
                    planned(release, current_version@, platform, force),
                    plan,
                ),
            None => json_text_at(document@, "/tag_name"@) is None,
        },
{
    match read_release(document) {
        None => None,
        Some(release) => Some(plan_update(&release, current_version, platform, force)),
    }
}

/// The asset that is chosen has a fitting name, and none before it has.
pub proof fn found_asset_fits(assets: Seq<Asset>, prefix: Seq<char>, i: int)
    requires
        0 <= i,
        asset_for(assets, prefix, i) is Ok,
    ensures
        ({
            let found = asset_for(assets, prefix, i)->Ok_0;
            &&& i <= found < assets.len()
            &&& assets[found].name matches Some(name) && prefix.is_prefix_of(name@)
            &&& forall|k: int|
                i <= k < found ==> ((#[trigger] assets[k]).name matches Some(name)
                    && !prefix.is_prefix_of(name@))
        }),
    decreases assets.len() - i,
{
    if i < assets.len() && !prefix.is_prefix_of(assets[i].name->0@) {
        found_asset_fits(assets, prefix, i + 1);
    }
}

/// The version of the running program, as releases write it.
pub fn version_tag(pkg_version: &str) -> (tag: String)
    ensures
        tag@ == "v"@ + pkg_version@,
{
    let mut tag: String = "v".to_owned();
    tag.append(pkg_version);
    tag
}

/// How the updater introduces itself.
pub fn user_agent(id: &str) -> (agent: String)
    ensures
        agent@ == "insanity-updater-"@ + id@,
{
    let mut agent: String = "insanity-updater-".to_owned();
    agent.append(id);
    agent
}

/// What is wrong with the reply to the question for the latest release, if anything is.
pub fn fetch_failure(success: bool, status: &str) -> (failure: Option<String>)
    ensures
        match failure {
            None => success,
            Some(message) => !success && message@ == "Failed to fetch latest release: "@ + status@,
        },
{
    if success {
        return None;
    }
    let mut message: String = "Failed to fetch latest release: ".to_owned();
    message.append(status);
    Some(message)
}

/// What is left to do once the new program is at hand.
#[derive(Debug, Clone, Copy, PartialEq, Eq, Structural)]
pub enum FinishingStep {
    /// Put it in the place of the running one.
    Replace,
    /// Let the one in that place be executed.
    AllowExecution,
}

/// What is left to do, in order. A dry run never replaces the running program; permissions are
/// seen to where the system has them, dry run or not.
pub fn finishing_steps(dry_run: bool, has_permissions: bool) -> (steps: Vec<FinishingStep>)
    ensures
        steps@ == (if dry_run {
            Seq::empty()
        } else {
            seq![FinishingStep::Replace]
        }) + (if has_permissions {
            seq![FinishingStep::AllowExecution]
        } else {
            Seq::empty()
        }),
        steps@.contains(FinishingStep::Replace) <==> !dry_run,
{
    let mut steps: Vec<FinishingStep> = Vec::new();
    if !dry_run {
        steps.push(FinishingStep::Replace);
        proof {
            assert(steps@[0] == FinishingStep::Replace);
        }
    }
    let ghost so_far = steps@;
    if has_permissions {
        steps.push(FinishingStep::AllowExecution);
    }
    proof {
        assert(so_far =~= if dry_run {
            Seq::empty()
        } else {
            seq![FinishingStep::Replace]
        });
        assert(!dry_run ==> steps@[0] == FinishingStep::Replace);
    }
    steps
}

/// Whether an entry of an archive is a directory.
pub fn entry_is_directory(name: &str) -> (directory: bool)
    ensures
        directory == (name@.len() > 0 && name@.last() == '/'),
{
    ends_with(name, '/')
}

/// What a directory holds at one place: a file or not, and its name where it is text.
#[derive(Debug)]
pub struct DirEntry {
    pub is_file: bool,
    pub name: Option<String>,
}

/// Whether an entry is the program.
pub open spec fn is_executable(entry: DirEntry) -> bool {
    entry.is_file && (entry.name matches Some(name) && "insanity"@.is_prefix_of(name@))
}

/// The first entry that is the program.
pub fn find_executable(entries: &Vec<DirEntry>) -> (found: Option<usize>)
    ensures
        match found {
            Some(i) => i < entries@.len() && is_executable(entries@[i as int]) && forall|k: int|
                0 <= k < i ==> !is_executable(#[trigger] entries@[k]),
            None => forall|k: int|
                0 <= k < entries@.len() ==> !is_executable(#[trigger] entries@[k]),
        },
{
    let mut i: usize = 0;
    while i < entries.len()
        invariant
            i <= entries@.len(),
            forall|k: int| 0 <= k < i ==> !is_executable(#[trigger] entries@[k]),
        decreases entries@.len() - i,
    {
        if entries[i].is_file {
            match &entries[i].name {
                Some(name) => {
                    if starts_with(name.as_str(), "insanity") {
                        return Some(i);
                    }
                },
                None => {},
            }
        }
        i += 1;
    }
    None
}

/// The permissions of a file, with execution allowed to everyone.
pub fn executable_mode(mode: u32) -> (executable: u32)
    ensures
        executable == mode | 0o111,
{
    mode | 0o111
}

/// Allowing execution takes nothing away, and doing it twice changes nothing more.
pub proof fn executable_mode_adds(mode: u32)
    ensures
        (mode | 0o111) & mode == mode,
        (mode | 0o111) & 0o111 == 0o111,
        (mode | 0o111) | 0o111 == mode | 0o111,
{
    assert((mode | 0o111) & mode == mode) by (bit_vector);
    assert((mode | 0o111) & 0o111 == 0o111) by (bit_vector);
    assert((mode | 0o111) | 0o111 == mode | 0o111) by (bit_vector);
}

} // verus!
