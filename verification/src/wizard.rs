//! The decision steps of the interactive policy builder.
//!
//! Prompting itself is I/O and lives outside the library; each function
//! here takes the values a prompt produced and performs one step of the
//! builder exactly: mapping menu selections to methods, validating
//! bounds, accumulating rule lists, and emitting schedule entries.

use vstd::prelude::*;
use crate::blocksettings::AppString;
use crate::blocksettings::BreakMethod;
use crate::blocksettings::LockMethod;
use crate::blocksettings::ScheduleBlock;
use crate::blocksettings::ScheduleTimeTuple;
use crate::blocksettings::break_wf;
use crate::blocksettings::schedule_entry_wf;
use crate::blocksettings::schedule_ids_contiguous;
use crate::convert::TimeOfDay;
use crate::digits::dec_digits;

verus! {

/// The lock-method menu: 0 "No Lock", 1 "Random Text", 2 "Time Range",
/// 3 "Restart", 4 "Password"; out-of-range selections fall back to no
/// lock.
pub fn lock_method_from_selection(selection: usize) -> (m: LockMethod)
    ensures
        m == (match selection {
            1 => LockMethod::RandomText,
            2 => LockMethod::Window,
            3 => LockMethod::Restart,
            4 => LockMethod::Password,
            _ => LockMethod::NoLock,
        }),
{
    match selection {
        1 => LockMethod::RandomText,
        2 => LockMethod::Window,
        3 => LockMethod::Restart,
        4 => LockMethod::Password,
        _ => LockMethod::NoLock,
    }
}

/// The break-method menu: 0 "No Breaks", 1 "Allowance", 2 "Pomodoro";
/// the minute arguments are the answers to the follow-up prompts of the
/// selected branch.
pub fn break_method_from_selection(
    selection: usize,
    allowance_minutes: u8,
    block_minutes: u8,
    break_minutes: u8,
) -> (b: BreakMethod)
    requires
        allowance_minutes <= 99,
        block_minutes <= 99,
        break_minutes <= 99,
    ensures
        b == (match selection {
            1 => BreakMethod::Allowance(allowance_minutes),
            2 => BreakMethod::Pomodoro(block_minutes, break_minutes),
            _ => BreakMethod::NoBreaks,
        }),
        break_wf(b),
{
    match selection {
        1 => BreakMethod::Allowance(allowance_minutes),
        2 => BreakMethod::Pomodoro(block_minutes, break_minutes),
        _ => BreakMethod::NoBreaks,
    }
}

/// Validator for the random-text length prompt: 0 to 999 inclusive.
pub fn random_text_length_valid(len: u16) -> (r: bool)
    ensures
        r == (len <= 999),
{
    len <= 999
}

/// Validator for every break-minutes prompt: 0 to 99 inclusive.
pub fn break_minutes_valid(minutes: u8) -> (r: bool)
    ensures
        r == (minutes <= 99),
{
    minutes <= 99
}

/// One step of a collect-until-empty loop: an empty answer ends the loop
/// without adding anything; any other answer is appended.
pub fn push_nonempty(list: &mut Vec<String>, s: String) -> (added: bool)
    ensures
        added == (s@.len() > 0),
        added ==> final(list)@ == old(list)@.push(s),
        !added ==> final(list)@ == old(list)@,
{
    if s.as_str().is_empty() {
        false
    } else {
        list.push(s);
        true
    }
}

/// Wraps each collected window title as a title target and appends it.
pub fn append_titles(apps: &mut Vec<AppString>, titles: &Vec<String>)
    ensures
        final(apps)@.len() == old(apps)@.len() + titles@.len(),
        forall|i: int| 0 <= i < old(apps)@.len() ==> final(apps)@[i] == old(apps)@[i],
        forall|k: int|
            0 <= k < titles@.len() ==> final(apps)@[old(apps)@.len() + k] == AppString::Title(
                titles@[k],
            ),
{
    let n = titles.len();
    let mut k: usize = 0;
    while k < n
        invariant
            k <= n,
            n == titles@.len(),
            apps@.len() == old(apps)@.len() + k,
            forall|i: int| 0 <= i < old(apps)@.len() ==> apps@[i] == old(apps)@[i],
            forall|j: int|
                0 <= j < k ==> apps@[old(apps)@.len() + j] == AppString::Title(titles@[j]),
        decreases n - k,
    {
        apps.push(AppString::Title(titles[k].clone()));
        k = k + 1;
    }
}

/// Chosen catalog entries become system-app targets, in choice order.
pub fn win10_apps_from_choices(choices: &Vec<usize>, catalog: &Vec<String>) -> (r: Vec<AppString>)
    requires
        forall|i: int| 0 <= i < choices@.len() ==> (#[trigger] choices@[i]) < catalog@.len(),
    ensures
        r@.len() == choices@.len(),
        forall|k: int|
            0 <= k < choices@.len() ==> r@[k] == AppString::Win10(
                catalog@[(#[trigger] choices@[k]) as int],
            ),
{
    let n = choices.len();
    let mut r: Vec<AppString> = Vec::new();
    let mut k: usize = 0;
    while k < n
        invariant
            k <= n,
            n == choices@.len(),
            forall|i: int| 0 <= i < n ==> (#[trigger] choices@[i]) < catalog@.len(),
            r@.len() == k,
            forall|j: int|
                0 <= j < k ==> r@[j] == AppString::Win10(catalog@[(#[trigger] choices@[j]) as int]),
        decreases n - k,
    {
        let idx = choices[k];
        r.push(AppString::Win10(catalog[idx].clone()));
        k = k + 1;
    }
    r
}

/// The schedule stage accepts a time pair when both minutes sit on the
/// five-minute grid and the end is after the start or exactly midnight.
pub fn schedule_times_valid(start: &TimeOfDay, end: &TimeOfDay) -> (r: bool)
    ensures
        r == (start.minute % 5 == 0 && end.minute % 5 == 0 && ((end.hour == 0 && end.minute == 0)
            || start.spec_before(*end))),
{
    start.minute_on_grid() && end.minute_on_grid() && (end.is_midnight() || start.is_before(end))
}

/// Emits one schedule entry per selected weekday, ids continuing the
/// existing numbering. Rejects (and changes nothing on) a time pair that
/// is off the five-minute grid or out of order; a midnight end rolls each
/// entry's end day to the following day. Every appended entry satisfies
/// the schedule-entry invariant, and contiguous numbering is preserved.
pub fn append_schedule_entries(
    schedule: &mut Vec<ScheduleBlock>,
    days: &Vec<usize>,
    start: TimeOfDay,
    end: TimeOfDay,
    break_type: BreakMethod,
) -> (ok: bool)
    requires
        forall|i: int| 0 <= i < days@.len() ==> (#[trigger] days@[i]) < 7,
        start.wf(),
        end.wf(),
        break_wf(break_type),
        old(schedule)@.len() + days@.len() <= usize::MAX,
    ensures
        ok == (start.minute % 5 == 0 && end.minute % 5 == 0 && ((end.hour == 0 && end.minute == 0)
            || start.spec_before(end))),
        !ok ==> *final(schedule) == *old(schedule),
        ok ==> final(schedule)@.len() == old(schedule)@.len() + days@.len(),
        ok ==> forall|i: int| 0 <= i < old(schedule)@.len() ==> final(schedule)@[i] == old(
            schedule,
        )@[i],
        ok ==> forall|k: int|
            0 <= k < days@.len() ==> {
                let e = #[trigger] final(schedule)@[old(schedule)@.len() + k];
                &&& e.id == old(schedule)@.len() + k
                &&& e.start_time == ScheduleTimeTuple(days@[k], start.hour, start.minute)
                &&& e.end_time.0 == (if end.hour == 0 && end.minute == 0 {
                    (days@[k] + 1) % 7
                } else {
                    days@[k] as int
                })
                &&& e.end_time.1 == end.hour
                &&& e.end_time.2 == end.minute
                &&& e.break_type == break_type
                &&& schedule_entry_wf(e)
            },
        ok && schedule_ids_contiguous(old(schedule)@) ==> schedule_ids_contiguous(
            final(schedule)@,
        ),
{
    let valid = schedule_times_valid(&start, &end);
    if !valid {
        return false;
    }
    let midnight = end.is_midnight();
    let ghost base = schedule@.len();
    let n = days.len();
    let mut k: usize = 0;
    while k < n
        invariant
            k <= n,
            n == days@.len(),
            forall|i: int| 0 <= i < n ==> (#[trigger] days@[i]) < 7,
            start.wf(),
            end.wf(),
            break_wf(break_type),
            start.minute % 5 == 0,
            end.minute % 5 == 0,
            midnight == (end.hour == 0 && end.minute == 0),
            midnight || start.spec_before(end),
            base + n <= usize::MAX,
            schedule@.len() == base + k,
            forall|i: int| 0 <= i < base ==> schedule@[i] == old(schedule)@[i],
            forall|j: int|
                0 <= j < k ==> {
                    let e = #[trigger] schedule@[base + j];
                    &&& e.id == base + j
                    &&& e.start_time == ScheduleTimeTuple(days@[j], start.hour, start.minute)
                    &&& e.end_time.0 == (if midnight {
                        (days@[j] + 1) % 7
                    } else {
                        days@[j] as int
                    })
                    &&& e.end_time.1 == end.hour
                    &&& e.end_time.2 == end.minute
                    &&& e.break_type == break_type
                    &&& schedule_entry_wf(e)
                },
        decreases n - k,
    {
        let d = days[k];
        let end_day = if midnight {
            (d + 1) % 7
        } else {
            d
        };
        let entry = ScheduleBlock {
            id: schedule.len(),
            start_time: ScheduleTimeTuple::new(d, start.hour, start.minute),
            end_time: ScheduleTimeTuple::new(end_day, end.hour, end.minute),
            break_type,
        };
        schedule.push(entry);
        k = k + 1;
    }
    proof {
        if schedule_ids_contiguous(old(schedule)@) {
            assert forall|i: int|
                0 <= i < schedule@.len() implies (#[trigger] schedule@[i]).id == i by {
                if i < base {
                    assert(schedule@[i] == old(schedule)@[i]);
                    assert(old(schedule)@[i].id == i);
                } else {
                    let j = i - base;
                    assert(schedule@[base + j].id == base + j);
                }
            }
        }
    }
    true
}

/// The names of the fixed catalog of known system applications offered
/// by the system-app stage.
pub open spec fn spec_win10_names() -> Seq<Seq<char>> {
    seq![
        "3DViewer.exe"@,
        "AccountsControlHost.exe"@,
        "AddSuggestedFoldersToLibraryDialog.exe"@,
        "AppInstaller.exe"@,
        "AppInstallerCLI.exe"@,
        "AppInstallerElevatedAppServiceClient.exe"@,
        "AppInstallerPythonRedirector.exe"@,
        "AppResolverUX.exe"@,
        "AssignedAccessLockApp.exe"@,
        "AuthenticationManager.exe"@,
        "BioEnrollmentHost.exe"@,
        "Calculator.exe"@,
        "CallingShellApp.exe"@,
        "CameraBarcodeScannerPreview.exe"@,
        "candycrushsaga.exe"@,
        "CapturePicker.exe"@,
        "CHXSmartScreen.exe"@,
        "Cortana.exe"@,
        "CredDialogHost.exe"@,
        "FileExplorer.exe"@,
        "FilePicker.exe"@,
        "GameBar.exe"@,
        "GameBar.exe"@,
        "GameBarElevatedFT.exe"@,
        "GameBarFTServer.exe"@,
        "GetHelp.exe"@,
        "HxAccounts.exe"@,
        "HxCalendarAppImm.exe"@,
        "HxOutlook.exe"@,
        "HxTsr.exe"@,
        "LocalBridge.exe"@,
        "LockApp.exe"@,
        "Maps.exe"@,
        "Microsoft.AAD.BrokerPlugin.exe"@,
        "Microsoft.AsyncTextService.exe"@,
        "Microsoft.ECApp.exe"@,
        "Microsoft.MicrosoftSolitaireCollection.exe"@,
        "Microsoft.Msn.News.exe"@,
        "Microsoft.Msn.Weather.exe"@,
        "Microsoft.Notes.exe"@,
        "Microsoft.Photos.exe"@,
        "Microsoft.Wallet.exe"@,
        "Microsoft.WebMediaExtensions.exe"@,
        "MixedRealityPortal.Brokered.exe"@,
        "MixedRealityPortal.exe"@,
        "Music.UI.exe"@,
        "myling.exe"@,
        "NarratorQuickStart.exe"@,
        "NcsiUwpApp.exe"@,
        "onenoteim.exe"@,
        "onenoteshare.exe"@,
        "OOBENetworkCaptivePortal.exe"@,
        "OOBENetworkConnectionFlow.exe"@,
        "PaintStudio.View.exe"@,
        "PeopleApp.exe"@,
        "PeopleExperienceHost.exe"@,
        "Photos.DLC.Main.exe"@,
        "Photos.DLC.MediaEngine.exe"@,
        "PilotshubApp.exe"@,
        "PinningConfirmationDialog.exe"@,
        "Print3D.exe"@,
        "ScreenClippingHost.exe"@,
        "ScreenSketch.exe"@,
        "SearchApp.exe"@,
        "SecHealthUI.exe"@,
        "SecureAssessmentBrowser.exe"@,
        "ShellExperienceHost.exe"@,
        "Skype.exe"@,
        "Solitaire.exe"@,
        "SoundRec.exe"@,
        "SpeechToTextOverlay64-Retail.exe"@,
        "Spotify.exe"@,
        "SpotifyMigrator.exe"@,
        "SpotifyStartupTask.exe"@,
        "StartMenuExperienceHost.exe"@,
        "StoreDesktopExtension.exe"@,
        "StoreExperienceHost.exe"@,
        "TCUI-App.exe"@,
        "TextInputHost.exe"@,
        "Time.exe"@,
        "UndockedDevKit.exe"@,
        "Video.UI.exe"@,
        "VideoProjectsLauncher.exe"@,
        "View3D.ResourceResolver.exe"@,
        "WebViewHost.exe"@,
        "WhatsNew.Store.exe"@,
        "Win32Bridge.Server.exe"@,
        "Win32WebViewHost.exe"@,
        "WindowsCamera.exe"@,
        "WindowsPackageManagerServer.exe"@,
        "WinStore.App.exe"@,
        "WpcUapApp.exe"@,
        "XBox.TCUI.exe"@,
        "XboxApp.exe"@,
        "XboxIdp.exe"@,
        "XGpuEjectDialog.exe"@,
        "YourPhone.exe"@,
        "YourPhoneAppProxy.exe"@,
        "YourPhoneServer.exe"@,
    ]
}

/// The fixed catalog of known system applications, in menu order.
pub fn win10_catalog() -> (r: Vec<String>)
    ensures
        r@.len() == 99,
        forall|i: int| 0 <= i < r@.len() ==> (#[trigger] r@[i])@ == spec_win10_names()[i],
{
    let r = vec![
        String::from_str("3DViewer.exe"),
        String::from_str("AccountsControlHost.exe"),
        String::from_str("AddSuggestedFoldersToLibraryDialog.exe"),
        String::from_str("AppInstaller.exe"),
        String::from_str("AppInstallerCLI.exe"),
        String::from_str("AppInstallerElevatedAppServiceClient.exe"),
        String::from_str("AppInstallerPythonRedirector.exe"),
        String::from_str("AppResolverUX.exe"),
        String::from_str("AssignedAccessLockApp.exe"),
        String::from_str("AuthenticationManager.exe"),
        String::from_str("BioEnrollmentHost.exe"),
        String::from_str("Calculator.exe"),
        String::from_str("CallingShellApp.exe"),
        String::from_str("CameraBarcodeScannerPreview.exe"),
        String::from_str("candycrushsaga.exe"),
        String::from_str("CapturePicker.exe"),
        String::from_str("CHXSmartScreen.exe"),
        String::from_str("Cortana.exe"),
        String::from_str("CredDialogHost.exe"),
        String::from_str("FileExplorer.exe"),
        String::from_str("FilePicker.exe"),
        String::from_str("GameBar.exe"),
        String::from_str("GameBar.exe"),
        String::from_str("GameBarElevatedFT.exe"),
        String::from_str("GameBarFTServer.exe"),
        String::from_str("GetHelp.exe"),
        String::from_str("HxAccounts.exe"),
        String::from_str("HxCalendarAppImm.exe"),
        String::from_str("HxOutlook.exe"),
        String::from_str("HxTsr.exe"),
        String::from_str("LocalBridge.exe"),
        String::from_str("LockApp.exe"),
        String::from_str("Maps.exe"),
        String::from_str("Microsoft.AAD.BrokerPlugin.exe"),
        String::from_str("Microsoft.AsyncTextService.exe"),
        String::from_str("Microsoft.ECApp.exe"),
        String::from_str("Microsoft.MicrosoftSolitaireCollection.exe"),
        String::from_str("Microsoft.Msn.News.exe"),
        String::from_str("Microsoft.Msn.Weather.exe"),
        String::from_str("Microsoft.Notes.exe"),
        String::from_str("Microsoft.Photos.exe"),
        String::from_str("Microsoft.Wallet.exe"),
        String::from_str("Microsoft.WebMediaExtensions.exe"),
        String::from_str("MixedRealityPortal.Brokered.exe"),
        String::from_str("MixedRealityPortal.exe"),
        String::from_str("Music.UI.exe"),
        String::from_str("myling.exe"),
        String::from_str("NarratorQuickStart.exe"),
        String::from_str("NcsiUwpApp.exe"),
        String::from_str("onenoteim.exe"),
        String::from_str("onenoteshare.exe"),
        String::from_str("OOBENetworkCaptivePortal.exe"),
        String::from_str("OOBENetworkConnectionFlow.exe"),
        String::from_str("PaintStudio.View.exe"),
        String::from_str("PeopleApp.exe"),
        String::from_str("PeopleExperienceHost.exe"),
        String::from_str("Photos.DLC.Main.exe"),
        String::from_str("Photos.DLC.MediaEngine.exe"),
        String::from_str("PilotshubApp.exe"),
        String::from_str("PinningConfirmationDialog.exe"),
        String::from_str("Print3D.exe"),
        String::from_str("ScreenClippingHost.exe"),
        String::from_str("ScreenSketch.exe"),
        String::from_str("SearchApp.exe"),
        String::from_str("SecHealthUI.exe"),
        String::from_str("SecureAssessmentBrowser.exe"),
        String::from_str("ShellExperienceHost.exe"),
        String::from_str("Skype.exe"),
        String::from_str("Solitaire.exe"),
        String::from_str("SoundRec.exe"),
        String::from_str("SpeechToTextOverlay64-Retail.exe"),
        String::from_str("Spotify.exe"),
        String::from_str("SpotifyMigrator.exe"),
        String::from_str("SpotifyStartupTask.exe"),
        String::from_str("StartMenuExperienceHost.exe"),
        String::from_str("StoreDesktopExtension.exe"),
        String::from_str("StoreExperienceHost.exe"),
        String::from_str("TCUI-App.exe"),
        String::from_str("TextInputHost.exe"),
        String::from_str("Time.exe"),
        String::from_str("UndockedDevKit.exe"),
        String::from_str("Video.UI.exe"),
        String::from_str("VideoProjectsLauncher.exe"),
        String::from_str("View3D.ResourceResolver.exe"),
        String::from_str("WebViewHost.exe"),
        String::from_str("WhatsNew.Store.exe"),
        String::from_str("Win32Bridge.Server.exe"),
        String::from_str("Win32WebViewHost.exe"),
        String::from_str("WindowsCamera.exe"),
        String::from_str("WindowsPackageManagerServer.exe"),
        String::from_str("WinStore.App.exe"),
        String::from_str("WpcUapApp.exe"),
        String::from_str("XBox.TCUI.exe"),
        String::from_str("XboxApp.exe"),
        String::from_str("XboxIdp.exe"),
        String::from_str("XGpuEjectDialog.exe"),
        String::from_str("YourPhone.exe"),
        String::from_str("YourPhoneAppProxy.exe"),
        String::from_str("YourPhoneServer.exe"),
    ];
    proof {
        assert(spec_win10_names().len() == 99);
    }
    r
}

/// Relies on `rand::thread_rng` / `rand::Rng::gen`: a fresh pseudorandom
/// value; nothing is promised of it.
#[verifier::external_body]
fn random_u64() -> u64 {
    rand::Rng::gen::<u64>(&mut rand::thread_rng())
}

/// The name under which a policy set is saved: the given name, or a
/// generated one when the name is empty, always with the target format's
/// file extension appended.
pub open spec fn spec_file_name(name: Seq<char>, random: u64) -> Seq<char> {
    if name.len() == 0 {
        "ctk_"@ + dec_digits(random as nat) + ".ctbbl"@
    } else {
        name + ".ctbbl"@
    }
}

/// Appends the fixed extension, generating a `ctk_<number>` stem from
/// `random` when the name is empty.
pub fn file_name_for(name: &str, random: u64) -> (r: String)
    ensures
        r@ == spec_file_name(name@, random),
{
    if name.is_empty() {
        let mut r = String::from_str("ctk_");
        let num = crate::digits::u64_to_dec_string(random);
        r.append(num.as_str());
        r.append(".ctbbl");
        proof {
            assert(r@ =~= spec_file_name(name@, random));
        }
        r
    } else {
        let mut r = name.to_owned();
        r.append(".ctbbl");
        r
    }
}

/// Like `file_name_for`, drawing the random stem itself when the name is
/// empty.
pub fn save_file_name(name: &str) -> (r: String)
    ensures
        name@.len() > 0 ==> r@ == name@ + ".ctbbl"@,
        name@.len() == 0 ==> exists|num: u64| r@ == spec_file_name(name@, num),
{
    if name.is_empty() {
        let num = random_u64();
        let r = file_name_for(name, num);
        proof {
            assert(r@ == spec_file_name(name@, num));
        }
        r
    } else {
        file_name_for(name, 0)
    }
}

} // verus!
