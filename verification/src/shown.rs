//! What holds of everything that is shown: numbers read back, and rows, badges and summaries say
//! what is the case.

use vstd::prelude::*;
use crate::display::{
    all_there, any_running, button_of, running_speeds, tone_of, RowButton, Tone,
};
use crate::download::{FileStatus, FileView};
use crate::format::{
    clock, double, eta_text, hundredths, nearest, size_text, spacing, speed_text, tenths,
};
use crate::hf_api::TokenView;
use crate::i18n::{well_ordered, LangView};
use crate::text::{
    all_digits, decimal, law_decimal_reads_back, law_two_digits_read_back, number, two_digits,
};
use crate::ui::AppView;

verus! {

// ---------------------------------------------------------------------------------------------
// Numbers
// ---------------------------------------------------------------------------------------------

/// How far two numbers are apart.
pub open spec fn distance(a: nat, b: nat) -> int {
    if a <= b {
        b - a
    } else {
        a - b
    }
}

/// A rounded quotient is at most one half away from the exact one, and even where it is just one
/// half away.
pub proof fn law_rounding_is_to_the_nearest(n: nat, d: nat)
    requires
        d > 0,
    ensures
        2 * distance(nearest(n, d) * d, n) <= d,
        2 * distance(nearest(n, d) * d, n) == d ==> nearest(n, d) % 2 == 0,
{
    let q = n / d;
    let r = n % d;
    assert(n == q * d + r && r < d) by (nonlinear_arith)
        requires
            d > 0,
            q == n / d,
            r == n % d,
    ;
    assert((q + 1) * d == q * d + d) by (nonlinear_arith);
}

proof fn lemma_spacing(b: nat)
    ensures
        spacing(b) >= 1,
        b < 0x20_0000_0000_0000 ==> spacing(b) == 1,
        b >= 0x20_0000_0000_0000 ==> spacing(b) * 0x10_0000_0000_0000 <= b,
    decreases b,
{
    if b >= 0x20_0000_0000_0000 {
        lemma_spacing(b / 2);
    }
}

/// A number is taken as it is below 2^53. Above, it is taken within a relative error of 2^-53.
pub proof fn law_numbers_are_taken_closely(b: nat)
    ensures
        b < 0x20_0000_0000_0000 ==> double(b) == b,
        b >= 0x20_0000_0000_0000 ==> distance(double(b), b) * 0x20_0000_0000_0000
            <= b,
{
    lemma_spacing(b);
    law_rounding_is_to_the_nearest(b, spacing(b));
    if b < 0x20_0000_0000_0000 {
        assert(nearest(b, 1) * 1 == nearest(b, 1));
    }
}

/// Whether `text` is a number with the decimals `decimals`, a blank and `unit`; the number, without
/// its point, is `shown`.
pub open spec fn reads(text: Seq<char>, shown: nat, decimals: nat, unit: Seq<char>) -> bool {
    exists|whole: Seq<char>, rest: Seq<char>|
        {
            &&& all_digits(whole)
            &&& whole.len() > 1 ==> whole[0] != '0'
            &&& all_digits(rest)
            &&& rest.len() == decimals
            &&& text == #[trigger] (whole + "."@ + rest) + unit
            &&& shown == number(whole) * (if decimals == 2 {
                100
            } else {
                10nat
            }) + number(rest)
        }
}

proof fn lemma_no_leading_zero(n: nat)
    ensures
        all_digits(decimal(n)),
        number(decimal(n)) == n,
        decimal(n).len() > 1 ==> decimal(n)[0] != '0',
{
    law_decimal_reads_back(n);
}

proof fn lemma_hundredths(n: nat, unit: Seq<char>)
    ensures
        reads(hundredths(n) + unit, n, 2, unit),
{
    lemma_no_leading_zero(n / 100);
    law_two_digits_read_back(n % 100);
    let whole = decimal(n / 100);
    let rest = two_digits(n % 100);
    assert(hundredths(n) + unit == (whole + "."@ + rest) + unit);
}

proof fn lemma_tenths(n: nat, unit: Seq<char>)
    ensures
        reads(tenths(n) + unit, n, 1, unit),
{
    lemma_no_leading_zero(n / 10);
    lemma_no_leading_zero(n % 10);
    let whole = decimal(n / 10);
    let rest = decimal(n % 10);
    assert(rest.len() == 1);
    assert(tenths(n) + unit == (whole + "."@ + rest) + unit);
}

/// A size below 1024 is shown in bytes, exactly. One below 1024 times as much is shown in KB with
/// one decimal, the next ones in MB and GB with two. What is shown is the size, in double
/// precision, to the nearest of such numbers, and to the even one if two are equally near.
pub proof fn law_size_reads_back(b: u64)
    ensures
        b < 0x400 ==> exists|digits: Seq<char>|
            {
                &&& all_digits(digits)
                &&& number(digits) == b
                &&& size_text(b) == #[trigger] digits.skip(0) + " B"@
            },
        0x400 <= b < 0x10_0000 ==> exists|shown: nat|
            {
                &&& #[trigger] reads(size_text(b), shown, 1, " KB"@)
                &&& 2 * distance(shown * 0x400, 10 * b as nat) <= 0x400
                &&& 2 * distance(shown * 0x400, 10 * b as nat) == 0x400 ==> shown % 2 == 0
            },
        0x10_0000 <= b < 0x4000_0000 ==> exists|shown: nat|
            {
                &&& #[trigger] reads(size_text(b), shown, 2, " MB"@)
                &&& 2 * distance(shown * 0x10_0000, 100 * b as nat) <= 0x10_0000
                &&& 2 * distance(shown * 0x10_0000, 100 * b as nat) == 0x10_0000 ==> shown % 2 == 0
            },
        b >= 0x4000_0000 ==> exists|shown: nat|
            {
                &&& #[trigger] reads(size_text(b), shown, 2, " GB"@)
                &&& 2 * distance(shown * 0x4000_0000, 100 * double(b as nat)) <= 0x4000_0000
                &&& 2 * distance(shown * 0x4000_0000, 100 * double(b as nat)) == 0x4000_0000 ==> shown % 2 == 0
            },
{
    let f = double(b as nat);
    law_numbers_are_taken_closely(b as nat);
    if b < 0x400 {
        law_decimal_reads_back(f);
        assert(decimal(f).skip(0) =~= decimal(f));
    } else if b < 0x10_0000 {
        let shown = nearest(10 * f, 0x400);
        law_rounding_is_to_the_nearest(10 * f, 0x400);
        lemma_tenths(shown, " KB"@);
        assert(reads(size_text(b), shown, 1, " KB"@));
    } else if b < 0x4000_0000 {
        let shown = nearest(100 * f, 0x10_0000);
        law_rounding_is_to_the_nearest(100 * f, 0x10_0000);
        lemma_hundredths(shown, " MB"@);
        assert(reads(size_text(b), shown, 2, " MB"@));
    } else {
        let shown = nearest(100 * f, 0x4000_0000);
        law_rounding_is_to_the_nearest(100 * f, 0x4000_0000);
        lemma_hundredths(shown, " GB"@);
        assert(reads(size_text(b), shown, 2, " GB"@));
    }
}

/// A speed is shown as a size with `/s` behind it, and one that is not positive not at all.
pub proof fn law_speed_is_a_size_per_second(b: u64)
    ensures
        speed_text(Some(b)) == size_text(b) + "/s"@,
        speed_text(None).len() == 0,
{
}

/// Whether `text` is an hour, if any, a minute and a second that add up to `secs`.
pub open spec fn adds_up(h: Seq<char>, m: Seq<char>, s: Seq<char>, secs: nat) -> bool {
    &&& all_digits(m) && all_digits(s)
    &&& s.len() == 2
    &&& number(m) < 60 && number(s) < 60
    &&& h.len() > 0 ==> all_digits(h) && h[0] != '0' && m.len() == 2
    &&& m.len() > 1 && h.len() == 0 ==> m[0] != '0'
    &&& number(h) * 3600 + number(m) * 60 + number(s) == secs
}

/// A duration is shown in minutes and seconds, and from an hour on with the hours before them. They
/// add up to the duration.
pub proof fn law_clock_adds_up(secs: nat)
    ensures
        secs < 3600 ==> exists|m: Seq<char>, s: Seq<char>| #[trigger]
            adds_up(Seq::empty(), m, s, secs) && clock(secs) == m + ":"@ + s,
        secs >= 3600 ==> exists|h: Seq<char>, m: Seq<char>, s: Seq<char>| #[trigger]
            adds_up(h, m, s, secs) && h.len() > 0 && clock(secs) == h + ":"@ + m + ":"@ + s,
{
    let hours = secs / 3600;
    let minutes = (secs % 3600) / 60;
    let seconds = secs % 60;
    law_two_digits_read_back(minutes);
    law_two_digits_read_back(seconds);
    law_decimal_reads_back(hours);
    lemma_no_leading_zero(minutes);
    assert(number(Seq::<char>::empty()) == 0);
    if secs < 3600 {
        assert(adds_up(Seq::empty(), decimal(minutes), two_digits(seconds), secs));
    } else {
        assert(adds_up(decimal(hours), two_digits(minutes), two_digits(seconds), secs));
    }
}

/// The time that is left is shown as a duration if something is left and the time is known, and
/// otherwise not at all.
pub proof fn law_time_left_is_a_duration(remaining: u64, secs: Option<u64>)
    ensures
        remaining > 0 && secs is Some ==> eta_text(remaining, secs) == clock(secs->0 as nat),
        remaining == 0 || secs is None ==> eta_text(remaining, secs).len() == 0,
{
}

// ---------------------------------------------------------------------------------------------
// Rows
// ---------------------------------------------------------------------------------------------

/// A file that waits or is on its way can be cancelled, one that failed or was cancelled can be
/// retried, and nothing can be done to one that is there. What is there is green, what failed is
/// red, what was cancelled is yellow, what is on its way is blue, and what waits is gray.
pub proof fn law_row_offers_what_can_be_done(status: FileStatus)
    ensures
        (button_of(status) == RowButton::Cancel) == (status == FileStatus::Pending || status
            == FileStatus::Downloading),
        (button_of(status) == RowButton::Retry) == (status == FileStatus::Failed || status
            == FileStatus::Cancelled),
        (button_of(status) == RowButton::Nothing) == (status == FileStatus::Done || status
            == FileStatus::Exists),
        (tone_of(status) == Tone::Green) == (status == FileStatus::Done || status
            == FileStatus::Exists),
        (tone_of(status) == Tone::Red) == (status == FileStatus::Failed),
        (tone_of(status) == Tone::Yellow) == (status == FileStatus::Cancelled),
        (tone_of(status) == Tone::Blue) == (status == FileStatus::Downloading),
        (tone_of(status) == Tone::Gray) == (status == FileStatus::Pending),
{
}

/// No two statuses have the same name.
pub proof fn law_names_tell_statuses_apart(a: FileStatus, b: FileStatus)
    requires
        a.name() == b.name(),
    ensures
        a == b,
{
    reveal_strlit("pending");
    reveal_strlit("downloading");
    reveal_strlit("done");
    reveal_strlit("exists");
    reveal_strlit("failed");
    reveal_strlit("cancelled");
    assert("pending"@.len() == 7);
    assert("downloading"@.len() == 11);
    assert("done"@.len() == 4);
    assert("exists"@.len() == 6);
    assert("failed"@.len() == 6);
    assert("cancelled"@.len() == 9);
    assert("exists"@[0] != "failed"@[0]);
}

/// The time left is shown for a file that is on its way, at some speed, with something missing, and
/// for no other; it is the time for what is missing.
pub proof fn law_time_left_is_for_what_is_missing(
    app: AppView,
    f: FileView,
    moving: bool,
    secs: Option<u64>,
    reg: LangView,
)
    ensures
        f.status == FileStatus::Downloading && moving && f.downloaded < f.total ==> app.time_left(
            f,
            moving,
            secs,
            reg,
        ) == reg.translated("eta"@, app.lang) + " "@ + eta_text(
            (f.total - f.downloaded) as u64,
            secs,
        ),
        !(f.status == FileStatus::Downloading && moving && f.downloaded < f.total)
            ==> app.time_left(f, moving, secs, reg).len() == 0,
{
}

// ---------------------------------------------------------------------------------------------
// The whole
// ---------------------------------------------------------------------------------------------

/// Whether `at` are the places of the files that are being fetched, from first to last.
pub open spec fn are_running(
    at: Seq<int>,
    keys: Seq<Seq<char>>,
    files: Map<Seq<char>, FileView>,
) -> bool {
    &&& forall|k: int| 0 <= k < at.len() ==> 0 <= #[trigger] at[k] < keys.len()
    &&& forall|j: int, k: int| 0 <= j < k < at.len() ==> #[trigger] at[j] < #[trigger] at[k]
    &&& forall|i: int|
        0 <= i < keys.len() ==> (at.contains(i) == (files[#[trigger] keys[i]].status
            == FileStatus::Downloading))
}

spec fn running_places(keys: Seq<Seq<char>>, files: Map<Seq<char>, FileView>) -> Seq<int>
    decreases keys.len(),
{
    if keys.len() == 0 {
        Seq::empty()
    } else if files[keys.last()].status == FileStatus::Downloading {
        running_places(keys.drop_last(), files).push(keys.len() - 1)
    } else {
        running_places(keys.drop_last(), files)
    }
}

proof fn lemma_running(keys: Seq<Seq<char>>, files: Map<Seq<char>, FileView>)
    ensures
        are_running(running_places(keys, files), keys, files),
        running_places(keys, files).len() == running_speeds(keys, files).len(),
        forall|k: int|
            0 <= k < running_places(keys, files).len() ==> #[trigger] running_speeds(keys, files)[k]
                == files[keys[running_places(keys, files)[k]]].speed,
    decreases keys.len(),
{
    if keys.len() > 0 {
        let less = keys.drop_last();
        lemma_running(less, files);
        let before = running_places(less, files);
        let at = running_places(keys, files);
        let speeds = running_speeds(keys, files);
        assert forall|i: int| 0 <= i < keys.len() implies at.contains(i) == (
        files[#[trigger] keys[i]].status == FileStatus::Downloading) by {
            if i < less.len() {
                assert(keys[i] == less[i]);
                if before.contains(i) {
                    let k = choose|k: int| 0 <= k < before.len() && before[k] == i;
                    assert(at[k] == i);
                }
                if at.contains(i) {
                    let k = choose|k: int| 0 <= k < at.len() && at[k] == i;
                    if k < before.len() {
                        assert(before[k] == i);
                    }
                }
            } else {
                if files[keys.last()].status == FileStatus::Downloading {
                    assert(at[before.len() as int] == i);
                }
                if at.contains(i) {
                    let k = choose|k: int| 0 <= k < at.len() && at[k] == i;
                    if k < before.len() {
                        assert(before[k] < less.len());
                    }
                }
            }
        }
        assert forall|k: int| 0 <= k < at.len() implies #[trigger] speeds[k]
            == files[keys[at[k]]].speed by {
            if k < before.len() {
                assert(speeds[k] == running_speeds(less, files)[k]);
                assert(at[k] == before[k]);
                assert(keys[at[k]] == less[before[k]]);
            }
        }
    }
}

/// The speeds that are added up are those of the files that are being fetched, each once, and of
/// no others.
pub proof fn law_running_files_are_counted_once(
    keys: Seq<Seq<char>>,
    files: Map<Seq<char>, FileView>,
)
    ensures
        exists|at: Seq<int>|
            {
                &&& #[trigger] are_running(at, keys, files)
                &&& at.len() == running_speeds(keys, files).len()
                &&& forall|k: int|
                    0 <= k < at.len() ==> #[trigger] running_speeds(keys, files)[k]
                        == files[keys[at[k]]].speed
            },
{
    lemma_running(keys, files);
}

/// While some file is being fetched the line beside "pause all" tells the speed of all together.
/// When there are files and each is done or was there, it says so. Otherwise there is no such line.
pub proof fn law_summary_says_what_is_the_case(
    app: AppView,
    total_speed: Option<u64>,
    reg: LangView,
)
    ensures
        ({
            let some = exists|p: Seq<char>| #[trigger]
                app.file_states.dom().contains(p) && app.file_states[p].status
                    == FileStatus::Downloading;
            let all = (exists|p: Seq<char>| #[trigger] app.file_states.dom().contains(p)) && (
            forall|p: Seq<char>| #[trigger]
                app.file_states.dom().contains(p) ==> app.file_states[p].status == FileStatus::Done
                    || app.file_states[p].status == FileStatus::Exists);
            &&& some ==> app.summary(total_speed, reg) == Some(
                reg.translated("total_speed"@, app.lang) + ": "@ + speed_text(total_speed),
            )
            &&& all ==> app.summary(total_speed, reg) == Some(
                reg.translated("all_done"@, app.lang),
            )
            &&& !some && !all ==> app.summary(total_speed, reg) is None
        }),
{
    let files = app.file_states;
    if exists|p: Seq<char>| #[trigger] files.dom().contains(p) {
        let p = choose|p: Seq<char>| #[trigger] files.dom().contains(p);
        assert(!files.dom().is_empty());
    } else {
        assert(files.dom() =~= Set::<Seq<char>>::empty());
    }
    assert(any_running(files) ==> !all_there(files));
}

/// The badge tells what is known of the token: that it is being checked, that it was accepted, that
/// it is missing, or that it was refused, with the reason.
pub proof fn law_badge_says_what_is_known(app: AppView, s: TokenView, reg: LangView)
    ensures
        app.token_status is None ==> app.badge(reg) == (
            reg.translated("status_checking"@, app.lang),
            Tone::Gray,
        ),
        app.token_status == Some(s) && s.status == "logged_in"@ ==> app.badge(reg) == (
            reg.translated("status_logged_in"@, app.lang),
            Tone::Green,
        ),
        app.token_status == Some(s) && s.status == "missing"@ ==> app.badge(reg) == (
            reg.translated("status_missing"@, app.lang),
            Tone::Yellow,
        ),
        app.token_status == Some(s) && s.status == "invalid"@ && s.error is Some ==> app.badge(reg)
            == (
            reg.translated("status_invalid"@, app.lang) + ": "@ + s.error->0,
            Tone::Red,
        ),
{
    reveal_strlit("logged_in");
    reveal_strlit("missing");
    reveal_strlit("invalid");
    assert("logged_in"@.len() == 9);
    assert("missing"@.len() == 7 && "invalid"@.len() == 7);
    assert("missing"@[0] != "invalid"@[0]);
}

/// A record to choose from is described by the number of its files and the time it was written.
pub proof fn law_record_is_described(app: AppView, count: nat, time: nat, reg: LangView)
    ensures
        exists|files: Seq<char>, saved: Seq<char>|
            {
                &&& all_digits(files) && number(files) == count
                &&& all_digits(saved) && number(saved) == time
                &&& app.record_line(count, time, reg) == reg.translated("files"@, app.lang) + ": "@
                    + #[trigger] files.skip(0) + " · "@ + (reg.translated("saved_at"@, app.lang)
                    + ": "@ + #[trigger] saved.skip(0))
            },
{
    law_decimal_reads_back(count);
    law_decimal_reads_back(time);
    let files = decimal(count);
    let saved = decimal(time);
    assert(files.skip(0) =~= files);
    assert(saved.skip(0) =~= saved);
}

/// The language of the window is shown by the name that it gives itself, or by its code where it
/// gives none or is not known.
pub proof fn law_language_is_shown_by_its_own_name(app: AppView, reg: LangView)
    requires
        well_ordered(reg),
    ensures
        reg.words.dom().contains(app.lang) && reg.words[app.lang].dom().contains("__name__"@)
            ==> app.own_language(reg) == reg.words[app.lang]["__name__"@],
        !(reg.words.dom().contains(app.lang) && reg.words[app.lang].dom().contains("__name__"@))
            ==> app.own_language(reg) == app.lang,
{
}

} // verus!
