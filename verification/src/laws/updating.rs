//! Updates: what is downloaded, and what is done with it.
use crate::laws::naming;
use crate::text;
use crate::update::{
    self, entry_is_directory, executable_mode, fetch_failure, find_executable, finishing_steps,
    plan_from_document, plan_update, read_release, user_agent, version_tag, Asset, DirEntry,
    FinishingStep, Release, UpdatablePlatform, UpdateFault, UpdatePlan,
};
use vstd::prelude::*;

verus! {

/// The name of a platform's files.
pub open spec fn named_for(platform: UpdatablePlatform, name: Seq<char>) -> bool {
    &&& platform is LinuxGNU ==> name == "insanity-linux-gnu"@
    &&& platform is LinuxMusl ==> name == "insanity-linux-musl"@
    &&& platform is WindowsMSVC ==> name == "insanity-windows-msvc"@
    &&& platform is WindowsMingw ==> name == "insanity-windows-mingw"@
    &&& platform is MacOSAppleSilicon ==> name == "insanity-macos-apple-silicon"@
}

/// Every platform has files of its own: no name is the beginning of another's.
pub proof fn platforms_have_their_own_files(
    platform: UpdatablePlatform,
    name: String,
    other: UpdatablePlatform,
    other_name: String,
)
    requires
        call_ensures(UpdatablePlatform::get_asset_name, (&platform,), name),
        call_ensures(UpdatablePlatform::get_asset_name, (&other,), other_name),
    ensures
        named_for(platform, name@),
        platform != other ==> !name@.is_prefix_of(other_name@),
{
    if platform != other {
        update::asset_names_are_apart(platform, other);
    }
}

/// A file whose name begins so.
pub open spec fn begins(asset: Asset, prefix: Seq<char>) -> bool {
    asset.name is Some && prefix.len() <= asset.name->0@.len() && asset.name->0@.take(
        prefix.len() as int,
    ) == prefix
}

/// The file at `i` is the first that begins so, and none before it is nameless.
pub open spec fn is_first_that_begins(assets: Seq<Asset>, prefix: Seq<char>, i: int) -> bool {
    &&& 0 <= i < assets.len()
    &&& begins(assets[i], prefix)
    &&& forall|k: int|
        0 <= k < i ==> (#[trigger] assets[k]).name is Some && !begins(assets[k], prefix)
}

/// None of the first `n` files begins so, and none of them is nameless.
pub open spec fn none_begins(assets: Seq<Asset>, prefix: Seq<char>, n: int) -> bool {
    forall|k: int| 0 <= k < n ==> (#[trigger] assets[k]).name is Some && !begins(assets[k], prefix)
}

proof fn prefix_begins(asset: Asset, prefix: Seq<char>)
    requires
        asset.name is Some,
    ensures
        begins(asset, prefix) <==> prefix.is_prefix_of(asset.name->0@),
{
    let name = asset.name->0@;
    if prefix.is_prefix_of(name) {
        assert(name.take(prefix.len() as int) =~= prefix);
    }
}

proof fn search_finds_the_first(assets: Seq<Asset>, prefix: Seq<char>, i: int)
    requires
        0 <= i <= assets.len(),
        none_begins(assets, prefix, i),
    ensures
        match update::asset_for(assets, prefix, i) {
            Ok(found) => is_first_that_begins(assets, prefix, found),
            Err(fault) => {
                ||| fault == UpdateFault::AssetNotFound && none_begins(
                    assets,
                    prefix,
                    assets.len() as int,
                )
                ||| fault == UpdateFault::AssetNameMissing && exists|k: int|
                    0 <= k < assets.len() && (#[trigger] assets[k]).name is None && none_begins(
                        assets,
                        prefix,
                        k,
                    )
            },
        },
    decreases assets.len() - i,
{
    if i < assets.len() && assets[i].name is Some {
        prefix_begins(assets[i], prefix);
        if !prefix.is_prefix_of(assets[i].name->0@) {
            assert(none_begins(assets, prefix, i + 1));
            search_finds_the_first(assets, prefix, i + 1);
        }
    } else if i < assets.len() {
        assert(assets[i].name is None);
    }
}

/// What is decided on a release. The first thing that is missing is said: the version, the files,
/// the platform, the name of a file that has to be looked at, a file that fits, its address.
/// Nothing is downloaded where the version is the one at hand, unless that is forced; else it is
/// the first file for the platform.
pub open spec fn is_decided(
    release: Release,
    current: Seq<char>,
    platform: Option<UpdatablePlatform>,
    force: bool,
    plan: Result<UpdatePlan, UpdateFault>,
) -> bool {
    let up_to_date = release.tag_name is Some && release.tag_name->0@ == current && !force;
    let looked = release.tag_name is Some && !up_to_date;
    &&& plan == Err::<UpdatePlan, UpdateFault>(UpdateFault::TagMissing)
        <==> release.tag_name is None
    &&& plan == Ok::<UpdatePlan, UpdateFault>(UpdatePlan::UpToDate) <==> up_to_date
    &&& plan == Err::<UpdatePlan, UpdateFault>(UpdateFault::AssetsMissing) <==> looked
        && release.assets is None
    &&& plan == Err::<UpdatePlan, UpdateFault>(UpdateFault::PlatformUnsupported) <==> looked
        && release.assets is Some && platform is None
    &&& looked && release.assets is Some && platform is Some ==> exists|name: Seq<char>| #[trigger]
        named_for(platform->0, name) && is_chosen(release.assets->0@, name, plan)
}

/// What is chosen of files whose names should begin so.
pub open spec fn is_chosen(
    assets: Seq<Asset>,
    name: Seq<char>,
    plan: Result<UpdatePlan, UpdateFault>,
) -> bool {
    match plan {
        Ok(UpdatePlan::Download { asset_name, url }) => asset_name@ == name && exists|i: int|
            #[trigger]
            is_first_that_begins(assets, name, i) && assets[i].browser_download_url is Some
                && assets[i].browser_download_url->0@ == url@,
        Err(UpdateFault::UrlMissing) => exists|i: int| #[trigger]
            is_first_that_begins(assets, name, i) && assets[i].browser_download_url is None,
        Err(UpdateFault::AssetNotFound) => none_begins(assets, name, assets.len() as int),
        Err(UpdateFault::AssetNameMissing) => exists|k: int|
            0 <= k < assets.len() && (#[trigger] assets[k]).name is None && none_begins(
                assets,
                name,
                k,
            ),
        _ => false,
    }
}

proof fn planning_decides(
    release: Release,
    current: Seq<char>,
    platform: Option<UpdatablePlatform>,
    force: bool,
    plan: Result<UpdatePlan, UpdateFault>,
)
    requires
        update::carries_out(update::planned(release, current, platform, force), plan),
    ensures
        is_decided(release, current, platform, force, plan),
{
    let up_to_date = release.tag_name is Some && release.tag_name->0@ == current && !force;
    if release.tag_name is Some && !up_to_date && release.assets is Some && platform is Some {
        let (assets, name) = (release.assets->0@, platform->0.asset_name());
        assert(named_for(platform->0, name));
        search_finds_the_first(assets, name, 0);
        assert(is_chosen(assets, name, plan));
    }
}

/// A release is decided on.
pub proof fn release_is_decided_on(
    release: Release,
    current: String,
    platform: Option<UpdatablePlatform>,
    force: bool,
    plan: Result<UpdatePlan, UpdateFault>,
)
    requires
        call_ensures(plan_update, (&release, &current, platform, force), plan),
    ensures
        is_decided(release, current@, platform, force, plan),
{
    planning_decides(release, current@, platform, force, plan);
}

/// Where a field of file `i` stands in a document.
pub open spec fn field_of(place: Seq<char>, i: int, field: Seq<char>) -> bool {
    exists|digits: Seq<char>| #[trigger]
        naming::writes(digits, i) && place == "/assets/"@ + digits + field
}

/// A text is what a document says at a place: nothing where the document has no text there.
pub open spec fn is_said(document: Seq<char>, place: Seq<char>, said: Option<String>) -> bool {
    &&& said matches Some(said) ==> update::json_text_at(document, place) == Some(Some(said@))
    &&& said is None ==> update::json_text_at(document, place) is None || update::json_text_at(
        document,
        place,
    )->0 is None
}

/// A file is what a document says of file `i`.
pub open spec fn is_file(document: Seq<char>, i: int, asset: Asset) -> bool {
    exists|name: Seq<char>, url: Seq<char>| #[trigger]
        field_of(name, i, "/name"@) && #[trigger] field_of(url, i, "/browser_download_url"@)
            && is_said(document, name, asset.name) && is_said(
            document,
            url,
            asset.browser_download_url,
        )
}

/// A release is what a document says: its version, and every one of its files, in order.
pub open spec fn is_told(document: Seq<char>, release: Release) -> bool {
    &&& update::json_text_at(document, "/tag_name"@) is Some
    &&& is_said(document, "/tag_name"@, release.tag_name)
    &&& release.assets is Some <==> (update::json_len_at(document, "/assets"@) is Some
        && update::json_len_at(document, "/assets"@)->0 is Some)
    &&& release.assets matches Some(assets) ==> update::json_len_at(document, "/assets"@) == Some(
        Some(assets@.len()),
    ) && forall|i: int| 0 <= i < assets@.len() ==> is_file(document, i, #[trigger] assets@[i])
}

proof fn reading_tells(document: Seq<char>, release: Release)
    requires
        update::reads(document, release),
    ensures
        is_told(document, release),
{
    if release.assets is Some {
        let assets = release.assets->0@;
        assert forall|i: int| 0 <= i < assets.len() implies is_file(
            document,
            i,
            #[trigger] assets[i],
        ) by {
            naming::decimal_is_the_number(i as nat);
            let name = update::asset_place(i as nat, "/name"@);
            let url = update::asset_place(i as nat, "/browser_download_url"@);
            assert(naming::writes(text::decimal(i as nat), i));
            assert(field_of(name, i, "/name"@));
            assert(field_of(url, i, "/browser_download_url"@));
        }
    }
}

/// A document is read for what it says; only one that is no JSON is not.
pub proof fn document_is_read_whole(
    document: &str,
    release: Option<Release>,
    current: String,
    platform: Option<UpdatablePlatform>,
    force: bool,
    plan: Option<Result<UpdatePlan, UpdateFault>>,
)
    requires
        call_ensures(read_release, (document,), release),
        call_ensures(plan_from_document, (document, &current, platform, force), plan),
    ensures
        release is None <==> update::json_text_at(document@, "/tag_name"@) is None,
        release matches Some(release) ==> is_told(document@, release),
        plan is None <==> update::json_text_at(document@, "/tag_name"@) is None,
        plan matches Some(plan) ==> exists|read: Release| #[trigger]
            is_told(document@, read) && is_decided(read, current@, platform, force, plan),
{
    if release is Some {
        reading_tells(document@, release->0);
    }
    if plan is Some {
        let read = choose|read: Release| #[trigger]
            update::reads(document@, read) && update::carries_out(
                update::planned(read, current@, platform, force),
                plan->0,
            );
        reading_tells(document@, read);
        planning_decides(read, current@, platform, force, plan->0);
    }
}

/// Every fault is said in its own words.
pub proof fn faults_are_told_apart(fault: UpdateFault, message: &'static str)
    requires
        call_ensures(UpdateFault::message, (&fault,), message),
    ensures
        fault is TagMissing ==> message@ == "tag_name is not a string"@,
        fault is AssetsMissing ==> message@ == "no assets in latest release"@,
        fault is PlatformUnsupported ==> message@
            == "This platform does not support updating through the cli"@,
        fault is AssetNameMissing ==> message@ == "asset name is not a string"@,
        fault is AssetNotFound ==> message@ == "no asset for current platform"@,
        fault is UrlMissing ==> message@ == "asset download url is not a string"@,
{
}

/// A version is marked by a `v`, and the updater by its name; a reply is a failure exactly where
/// it is no success, and then its status is told.
pub proof fn updater_says_who_asks(
    version: &str,
    tag: String,
    id: &str,
    agent: String,
    success: bool,
    status: &str,
    failure: Option<String>,
)
    requires
        call_ensures(version_tag, (version,), tag),
        call_ensures(user_agent, (id,), agent),
        call_ensures(fetch_failure, (success, status), failure),
    ensures
        tag@ == seq!['v'] + version@,
        agent@ == "insanity-updater-"@ + id@,
        failure is None <==> success,
        failure matches Some(message) ==> message@ == "Failed to fetch latest release: "@ + status@,
{
    reveal_strlit("v");
    assert("v"@ =~= seq!['v']);
}

/// The running program is replaced unless the run is dry; execution is allowed where the system
/// has permissions, and last.
pub proof fn dry_run_replaces_nothing(
    dry_run: bool,
    has_permissions: bool,
    steps: Vec<FinishingStep>,
)
    requires
        call_ensures(finishing_steps, (dry_run, has_permissions), steps),
    ensures
        steps@.len() == (if dry_run {
            0int
        } else {
            1
        }) + (if has_permissions {
            1int
        } else {
            0
        }),
        !dry_run ==> steps@[0] == FinishingStep::Replace,
        has_permissions ==> steps@.last() == FinishingStep::AllowExecution,
{
}

/// An entry is the program where it is a file whose name begins with that of the program.
pub open spec fn is_program(entry: DirEntry) -> bool {
    entry.is_file && entry.name is Some && 8 <= entry.name->0@.len() && entry.name->0@.take(8)
        == seq!['i', 'n', 's', 'a', 'n', 'i', 't', 'y']
}

/// What is found is the first entry that is the program, if there is one; a directory is told by a
/// slash at its end.
pub proof fn program_is_found_where_it_is(
    entries: Vec<DirEntry>,
    found: Option<usize>,
    name: &str,
    directory: bool,
)
    requires
        call_ensures(find_executable, (&entries,), found),
        call_ensures(entry_is_directory, (name,), directory),
    ensures
        found is None <==> forall|k: int|
            0 <= k < entries@.len() ==> !is_program(#[trigger] entries@[k]),
        found matches Some(i) ==> i < entries@.len() && is_program(entries@[i as int])
            && forall|k: int| 0 <= k < i ==> !is_program(#[trigger] entries@[k]),
        directory <==> name@.len() > 0 && name@[name@.len() - 1] == '/',
{
    reveal_strlit("insanity");
    let word = seq!['i', 'n', 's', 'a', 'n', 'i', 't', 'y'];
    assert("insanity"@ =~= word);
    assert forall|entry: DirEntry| #[trigger] is_program(entry) == update::is_executable(
        entry,
    ) by {
        if entry.name is Some {
            let text = entry.name->0@;
            if word.is_prefix_of(text) {
                assert(text.take(8) =~= word);
            }
        }
    }
    if found is Some {
        assert(is_program(entries@[found->0 as int]));
    }
}

/// Execution is allowed to the owner, the group and all others, and no other bit changes.
pub proof fn execution_is_allowed_to_all(mode: u32, executable: u32)
    requires
        call_ensures(executable_mode, (mode,), executable),
    ensures
        executable & 0o100 != 0 && executable & 0o010 != 0 && executable & 0o001 != 0,
        executable & !0o111u32 == mode & !0o111u32,
{
    assert((mode | 0o111) & 0o100 != 0 && (mode | 0o111) & 0o010 != 0 && (mode | 0o111) & 0o001
        != 0 && (mode | 0o111) & !0o111u32 == mode & !0o111u32) by (bit_vector);
}

} // verus!
