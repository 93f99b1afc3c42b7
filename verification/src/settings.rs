//! The settings surface: the plain transfer values the host exchanges
//! with the engine, validation of a submitted configuration, folder
//! path normalization, and the policy that falls back from `replace`
//! to `coexist` when the needed directories are not writable. The
//! host does the probing and the (de)serialization; every decision
//! about the values is made here.

use vstd::prelude::*;
use vstd::string::*;
use crate::config::{AppConfig, AppLocale, ConfigModel, OutputPolicy, default_locale};
use crate::normalize::{normalize_watch_folder_path, normalized_abs, trimmed};

verus! {

/// What normalizing a list of entered folder paths yields: the
/// canonical absolute paths of the non-empty entries, in order, or
/// the first entry's error.
pub open spec fn norm_list(raws: Seq<Seq<char>>) -> Result<Seq<Seq<char>>, Seq<char>>
    decreases raws.len(),
{
    if raws.len() == 0 {
        Result::Ok(Seq::empty())
    } else {
        let t = trimmed(raws.first());
        if t.len() == 0 {
            norm_list(raws.drop_first())
        } else if t.first() != '/' {
            Result::Err("watch folder must be absolute: "@ + t)
        } else {
            match norm_list(raws.drop_first()) {
                Result::Ok(tail) => Result::Ok(seq![normalized_abs(t)] + tail),
                Result::Err(e) => Result::Err(e),
            }
        }
    }
}

/// `s` with every repeated element dropped; the first occurrence
/// stays, order is kept.
pub open spec fn dedup_keep_first(s: Seq<Seq<char>>) -> Seq<Seq<char>>
    decreases s.len(),
{
    if s.len() == 0 {
        Seq::empty()
    } else {
        let front = dedup_keep_first(s.drop_last());
        if s.drop_last().contains(s.last()) {
            front
        } else {
            front.push(s.last())
        }
    }
}

/// Deduplication keeps exactly the elements.
proof fn lemma_dedup_contains(s: Seq<Seq<char>>, x: Seq<char>)
    ensures
        dedup_keep_first(s).contains(x) <==> s.contains(x),
    decreases s.len(),
{
    if s.len() > 0 {
        let d0 = dedup_keep_first(s.drop_last());
        lemma_dedup_contains(s.drop_last(), x);
        assert(s.contains(x) <==> (s.drop_last().contains(x) || s.last() == x)) by {
            if s.contains(x) {
                let k = choose|k: int| 0 <= k < s.len() && s[k] == x;
                if k < s.len() - 1 {
                    assert(s.drop_last()[k] == x);
                }
            }
            if s.drop_last().contains(x) {
                let k = choose|k: int|
                    0 <= k < s.drop_last().len() && s.drop_last()[k] == x;
                assert(s[k] == x);
            }
            if s.last() == x {
                assert(s[s.len() - 1] == x);
            }
        }
        if !s.drop_last().contains(s.last()) {
            let d = d0.push(s.last());
            assert(d.contains(x) <==> (d0.contains(x) || s.last() == x)) by {
                if d.contains(x) {
                    let k = choose|k: int| 0 <= k < d.len() && d[k] == x;
                    if k < d.len() - 1 {
                        assert(d0[k] == x);
                    }
                }
                if d0.contains(x) {
                    let k = choose|k: int| 0 <= k < d0.len() && d0[k] == x;
                    assert(d[k] == x);
                }
                if s.last() == x {
                    assert(d[d.len() - 1] == x);
                }
            }
        }
    }
}

/// How normalizing one more entry extends the result.
proof fn lemma_norm_list_push(s: Seq<Seq<char>>, x: Seq<char>)
    ensures
        norm_list(s.push(x)) == (match norm_list(s) {
            Result::Err(e) => Result::<Seq<Seq<char>>, Seq<char>>::Err(e),
            Result::Ok(l) => {
                let t = trimmed(x);
                if t.len() == 0 {
                    Result::Ok(l)
                } else if t.first() != '/' {
                    Result::Err("watch folder must be absolute: "@ + t)
                } else {
                    Result::Ok(l.push(normalized_abs(t)))
                }
            },
        }),
    decreases s.len(),
{
    reveal_with_fuel(norm_list, 3);
    if s.len() == 0 {
        assert(s.push(x).first() == x);
        assert(s.push(x).drop_first() =~= Seq::<Seq<char>>::empty());
        let t = trimmed(x);
        if t.len() > 0 && t.first() == '/' {
            assert(seq![normalized_abs(t)] + Seq::<Seq<char>>::empty() =~= Seq::<
                Seq<char>,
            >::empty().push(normalized_abs(t)));
        }
    } else {
        assert(s.push(x).first() == s.first());
        assert(s.push(x).drop_first() =~= s.drop_first().push(x));
        lemma_norm_list_push(s.drop_first(), x);
        let t0 = trimmed(s.first());
        if t0.len() > 0 && t0.first() == '/' {
            match norm_list(s.drop_first()) {
                Result::Ok(tail) => {
                    let t = trimmed(x);
                    if t.len() > 0 && t.first() == '/' {
                        assert(seq![normalized_abs(t0)] + tail.push(normalized_abs(t)) =~= (
                        seq![normalized_abs(t0)] + tail).push(normalized_abs(t)));
                    }
                },
                Result::Err(_) => {},
            }
        }
    }
}

/// A prefix's error is the whole list's error.
proof fn lemma_norm_list_err_prefix(s: Seq<Seq<char>>, i: int)
    requires
        0 <= i <= s.len(),
        norm_list(s.take(i)) is Err,
    ensures
        norm_list(s) == norm_list(s.take(i)),
    decreases s.len(),
{
    assert(i > 0) by {
        if i == 0 {
            assert(s.take(0) =~= Seq::<Seq<char>>::empty());
        }
    }
    let t = trimmed(s.first());
    assert(s.take(i).first() == s.first());
    assert(s.take(i).drop_first() =~= s.drop_first().take(i - 1));
    if t.len() == 0 {
        lemma_norm_list_err_prefix(s.drop_first(), i - 1);
    } else if t.first() == '/' {
        lemma_norm_list_err_prefix(s.drop_first(), i - 1);
    }
}

/// The output policy as exchanged with the host.
#[derive(Clone, Copy, Debug, PartialEq, Eq, Structural)]
pub enum OutputPolicyDto {
    Coexist,
    Replace,
}

impl OutputPolicyDto {
    /// The transfer value of an engine policy.
    pub fn from(value: OutputPolicy) -> (r: OutputPolicyDto)
        ensures
            r == (match value {
                OutputPolicy::Coexist => OutputPolicyDto::Coexist,
                OutputPolicy::Replace => OutputPolicyDto::Replace,
            }),
    {
        match value {
            OutputPolicy::Coexist => OutputPolicyDto::Coexist,
            OutputPolicy::Replace => OutputPolicyDto::Replace,
        }
    }
}

impl OutputPolicy {
    /// The engine policy a transfer value stands for.
    pub fn from(value: OutputPolicyDto) -> (r: OutputPolicy)
        ensures
            r == (match value {
                OutputPolicyDto::Coexist => OutputPolicy::Coexist,
                OutputPolicyDto::Replace => OutputPolicy::Replace,
            }),
    {
        match value {
            OutputPolicyDto::Coexist => OutputPolicy::Coexist,
            OutputPolicyDto::Replace => OutputPolicy::Replace,
        }
    }
}

/// The configuration as exchanged with the host: raw folder strings,
/// no locale.
#[derive(Debug)]
pub struct AppConfigDto {
    pub watch_folders: Vec<String>,
    pub recursive_watch: bool,
    pub output_policy: OutputPolicyDto,
    pub jpeg_quality: u8,
    pub rescan_interval_secs: u64,
    pub paused: bool,
}

/// The mathematical value of a transfer configuration.
pub struct DtoModel {
    pub watch_folders: Seq<Seq<char>>,
    pub recursive_watch: bool,
    pub output_policy: OutputPolicyDto,
    pub jpeg_quality: u8,
    pub rescan_interval_secs: u64,
    pub paused: bool,
}

impl View for AppConfigDto {
    type V = DtoModel;

    open spec fn view(&self) -> DtoModel {
        DtoModel {
            watch_folders: self.watch_folders.deep_view(),
            recursive_watch: self.recursive_watch,
            output_policy: self.output_policy,
            jpeg_quality: self.jpeg_quality,
            rescan_interval_secs: self.rescan_interval_secs,
            paused: self.paused,
        }
    }
}

impl AppConfigDto {
    /// The transfer value of an engine configuration; the locale does
    /// not travel.
    pub fn from(value: AppConfig) -> (r: AppConfigDto)
        ensures
            r@.watch_folders == value@.watch_folders,
            r@.recursive_watch == value@.recursive_watch,
            r@.output_policy == (match value@.output_policy {
                OutputPolicy::Coexist => OutputPolicyDto::Coexist,
                OutputPolicy::Replace => OutputPolicyDto::Replace,
            }),
            r@.jpeg_quality == value@.jpeg_quality,
            r@.rescan_interval_secs == value@.rescan_interval_secs,
            r@.paused == value@.paused,
    {
        let AppConfig {
            watch_folders,
            recursive_watch,
            output_policy,
            jpeg_quality,
            rescan_interval_secs,
            paused,
            locale: _,
        } = value;
        AppConfigDto {
            watch_folders,
            recursive_watch,
            output_policy: OutputPolicyDto::from(output_policy),
            jpeg_quality,
            rescan_interval_secs,
            paused,
        }
    }
}

/// What an accepted configuration update hands back: the stored
/// configuration and, possibly, a warning about a policy fallback.
#[derive(Debug)]
pub struct UpdateConfigResult {
    pub config: AppConfigDto,
    pub warning: Option<String>,
}

/// What the host observed when it probed one directory for
/// writability.
#[derive(Debug)]
pub enum DirStatus {
    /// The directory does not exist.
    Missing,
    /// The path exists but is not a directory.
    NotDirectory,
    /// Creating a probe file failed with this error text.
    NotWritable { detail: String },
    /// The probe file was created but removing it failed.
    ProbeCleanupFailed { tmp_path: String, detail: String },
    /// The probe file was created and removed.
    Writable,
}

/// The issue message for one probed directory, or nothing when it is
/// writable.
pub open spec fn dir_issue(label: Seq<char>, dir: Seq<char>, status: DirStatus) -> Option<
    Seq<char>,
> {
    match status {
        DirStatus::Missing => Option::Some(label + ": missing ("@ + dir + ")"@),
        DirStatus::NotDirectory => Option::Some(label + ": not directory ("@ + dir + ")"@),
        DirStatus::NotWritable { detail } => Option::Some(
            label + ": not writable ("@ + dir + ") - "@ + detail@,
        ),
        DirStatus::ProbeCleanupFailed { tmp_path, detail } => Option::Some(
            label + ": probe cleanup failed ("@ + tmp_path@ + ") - "@ + detail@,
        ),
        DirStatus::Writable => Option::None,
    }
}

/// Renders the issue with one probed directory, succeeding when it
/// is writable.
pub fn verify_writable_dir(dir: &str, label: &str, status: &DirStatus) -> (r: Result<(), String>)
    ensures
        match r {
            Result::Err(m) => dir_issue(label@, dir@, *status) == Option::Some(m@),
            Result::Ok(()) => dir_issue(label@, dir@, *status) is None,
        },
{
    match status {
        DirStatus::Missing => {
            let mut m = String::new();
            m.append(label);
            m.append(": missing (");
            m.append(dir);
            m.append(")");
            Result::Err(m)
        },
        DirStatus::NotDirectory => {
            let mut m = String::new();
            m.append(label);
            m.append(": not directory (");
            m.append(dir);
            m.append(")");
            Result::Err(m)
        },
        DirStatus::NotWritable { detail } => {
            let mut m = String::new();
            m.append(label);
            m.append(": not writable (");
            m.append(dir);
            m.append(") - ");
            m.append(detail.as_str());
            Result::Err(m)
        },
        DirStatus::ProbeCleanupFailed { tmp_path, detail } => {
            let mut m = String::new();
            m.append(label);
            m.append(": probe cleanup failed (");
            m.append(tmp_path.as_str());
            m.append(") - ");
            m.append(detail.as_str());
            Result::Err(m)
        },
        DirStatus::Writable => Result::Ok(()),
    }
}

/// The probe issues, in probe order: the recycle directory first,
/// then each watch folder.
pub open spec fn permission_issues(
    trash_dir: Seq<char>,
    trash_status: DirStatus,
    folders: Seq<Seq<char>>,
    folder_statuses: Seq<DirStatus>,
    i: int,
) -> Seq<Seq<char>>
    decreases folders.len() - i,
{
    if i < 0 || i > folders.len() {
        Seq::empty()
    } else if i == folders.len() {
        Seq::empty()
    } else {
        let rest = permission_issues(trash_dir, trash_status, folders, folder_statuses, i + 1);
        match dir_issue("watch folder"@, folders[i], folder_statuses[i]) {
            Option::Some(m) => seq![m] + rest,
            Option::None => rest,
        }
    }
}

/// All issues of one probe round, the recycle directory's first.
pub open spec fn all_permission_issues(
    trash_dir: Seq<char>,
    trash_status: DirStatus,
    folders: Seq<Seq<char>>,
    folder_statuses: Seq<DirStatus>,
) -> Seq<Seq<char>> {
    let folder_issues = permission_issues(trash_dir, trash_status, folders, folder_statuses, 0);
    match dir_issue("trash"@, trash_dir, trash_status) {
        Option::Some(m) => seq![m] + folder_issues,
        Option::None => folder_issues,
    }
}

/// Lines joined by single newlines.
pub open spec fn joined_lines(lines: Seq<Seq<char>>) -> Seq<char>
    decreases lines.len(),
{
    if lines.len() == 0 {
        Seq::empty()
    } else if lines.len() == 1 {
        lines[0]
    } else {
        lines[0] + "\n"@ + joined_lines(lines.drop_first())
    }
}

proof fn lemma_joined_lines_append(a: Seq<Seq<char>>, b: Seq<Seq<char>>)
    requires
        a.len() > 0,
        b.len() > 0,
    ensures
        joined_lines(a + b) == joined_lines(a) + "\n"@ + joined_lines(b),
    decreases a.len(),
{
    if a.len() == 1 {
        assert((a + b).drop_first() =~= b);
        assert((a + b)[0] == a[0]);
        assert(joined_lines(a + b) == a[0] + "\n"@ + joined_lines(b));
    } else {
        assert((a + b).drop_first() =~= a.drop_first() + b);
        lemma_joined_lines_append(a.drop_first(), b);
    }
}

/// Checks whether the recycle directory and every watch folder are
/// writable, as probed by the host. Succeeds exactly when no probe
/// found an issue; otherwise the issues are reported joined by
/// newlines, the recycle directory's first, then the folders' in
/// order.
pub fn verify_replace_permissions(
    trash_dir: &str,
    trash_status: &DirStatus,
    watch_folders: &Vec<String>,
    folder_statuses: &Vec<DirStatus>,
) -> (r: Result<(), String>)
    requires
        watch_folders@.len() == folder_statuses@.len(),
    ensures
        match r {
            Result::Ok(()) => all_permission_issues(
                trash_dir@,
                *trash_status,
                watch_folders.deep_view(),
                folder_statuses@,
            ).len() == 0,
            Result::Err(m) => {
                let issues = all_permission_issues(
                    trash_dir@,
                    *trash_status,
                    watch_folders.deep_view(),
                    folder_statuses@,
                );
                issues.len() > 0 && m@ == joined_lines(issues)
            },
        },
{
    let ghost folders = watch_folders.deep_view();
    let mut issues: Vec<String> = Vec::new();
    let ghost gissues = Seq::<Seq<char>>::empty();
    match verify_writable_dir(trash_dir, "trash", trash_status) {
        Result::Err(m) => {
            issues.push(m);
        },
        Result::Ok(()) => {},
    }
    proof {
        assert(issues.deep_view() =~= (match dir_issue("trash"@, trash_dir@, *trash_status) {
            Option::Some(m) => seq![m],
            Option::None => Seq::<Seq<char>>::empty(),
        }));
    }
    let ghost head = issues.deep_view();
    let ghost gacc = Seq::<Seq<char>>::empty();
    let mut i: usize = 0;
    proof {
        assert(gacc + permission_issues(trash_dir@, *trash_status, folders, folder_statuses@, 0)
            =~= permission_issues(trash_dir@, *trash_status, folders, folder_statuses@, 0));
        assert(issues.deep_view() =~= head + gacc);
    }
    while i < watch_folders.len()
        invariant
            watch_folders@.len() == folder_statuses@.len(),
            i <= watch_folders@.len(),
            folders == watch_folders.deep_view(),
            issues.deep_view() == head + gacc,
            gacc + permission_issues(trash_dir@, *trash_status, folders, folder_statuses@, i as int)
                == permission_issues(trash_dir@, *trash_status, folders, folder_statuses@, 0),
        decreases watch_folders@.len() - i,
    {
        let folder = &watch_folders[i];
        let status = &folder_statuses[i];
        proof {
            assert(folders[i as int] == watch_folders@[i as int]@);
        }
        let issue = verify_writable_dir(folder.as_str(), "watch folder", status);
        proof {
            let from_i = permission_issues(
                trash_dir@,
                *trash_status,
                folders,
                folder_statuses@,
                i as int,
            );
            let from_i1 = permission_issues(
                trash_dir@,
                *trash_status,
                folders,
                folder_statuses@,
                i + 1,
            );
            match dir_issue("watch folder"@, folders[i as int], folder_statuses@[i as int]) {
                Option::Some(m) => {
                    assert(from_i =~= seq![m] + from_i1);
                    assert((gacc + seq![m]) + from_i1 =~= gacc + from_i);
                },
                Option::None => {
                    assert(from_i =~= from_i1);
                },
            }
        }
        match issue {
            Result::Err(m) => {
                let ghost mm = m@;
                let ghost before = issues.deep_view();
                issues.push(m);
                proof {
                    assert(issues.deep_view() =~= before + seq![mm]);
                    gacc = gacc + seq![mm];
                    assert(head + gacc =~= (head + gacc.drop_last()) + seq![mm]);
                    assert(issues.deep_view() =~= head + gacc);
                }
            },
            Result::Ok(()) => {},
        }
        i = i + 1;
    }
    proof {
        assert(permission_issues(
            trash_dir@,
            *trash_status,
            folders,
            folder_statuses@,
            folders.len() as int,
        ) =~= Seq::<Seq<char>>::empty());
        assert(gacc + Seq::<Seq<char>>::empty() =~= gacc);
        assert(issues.deep_view() =~= all_permission_issues(
            trash_dir@,
            *trash_status,
            folders,
            folder_statuses@,
        ));
    }
    if issues.len() == 0 {
        return Result::Ok(());
    }
    let mut joined = String::new();
    joined.append(issues[0].as_str());
    let mut k: usize = 1;
    while k < issues.len()
        invariant
            1 <= k <= issues@.len(),
            issues@.len() > 0,
            joined@ == joined_lines(issues.deep_view().take(k as int)),
        decreases issues@.len() - k,
    {
        joined.append("\n");
        joined.append(issues[k].as_str());
        proof {
            let d = issues.deep_view();
            assert(d.take(k + 1) =~= d.take(k as int) + seq![d[k as int]]);
            lemma_joined_lines_append(d.take(k as int), seq![d[k as int]]);
        }
        k = k + 1;
    }
    proof {
        let d = issues.deep_view();
        assert(d.take(d.len() as int) =~= d);
    }
    Result::Err(joined)
}

/// Applies the `replace` availability policy: a configuration that
/// asks for `replace` while the permission check failed is stored
/// with `coexist` instead, and the check's message is wrapped into a
/// warning; otherwise the configuration passes through untouched.
pub fn apply_replace_permission_policy(config: AppConfig, permission_check: Result<(), String>) -> (r:
    (AppConfig, Option<String>))
    ensures
        (config@.output_policy == OutputPolicy::Replace && permission_check is Err) ==> r.0@
            == (ConfigModel { output_policy: OutputPolicy::Coexist, ..config@ }) && (
        r.1 matches Option::Some(w) && w@ == "Replace unavailable\n"@ + permission_check->Err_0@
            + "\nFallback: coexist"@),
        !(config@.output_policy == OutputPolicy::Replace && permission_check is Err) ==> r.0@
            == config@ && r.1 is None,
{
    let is_replace = match config.output_policy {
        OutputPolicy::Replace => true,
        OutputPolicy::Coexist => false,
    };
    match permission_check {
        Result::Err(err) => {
            if is_replace {
                let mut updated = config;
                updated.output_policy = OutputPolicy::Coexist;
                let mut warning = String::new();
                warning.append("Replace unavailable\n");
                warning.append(err.as_str());
                warning.append("\nFallback: coexist");
                (updated, Option::Some(warning))
            } else {
                (config, Option::None)
            }
        },
        Result::Ok(()) => (config, Option::None),
    }
}


impl AppConfig {
    /// Validates a submitted configuration. The quality must lie in
    /// `0..=100` and the rescan interval in `15..=3600`; each entered
    /// watch folder is normalized — empty entries are dropped, a
    /// relative path fails the whole update — and repeated folders
    /// are stored once, in first-seen order. The locale starts at its
    /// default; it is managed separately.
    pub fn try_from(value: AppConfigDto) -> (r: Result<AppConfig, String>)
        ensures
            value@.jpeg_quality > 100 ==> (r matches Result::Err(m) && m@
                == "jpeg_quality must be in range 0..=100"@),
            value@.jpeg_quality <= 100 && !(15 <= value@.rescan_interval_secs <= 3600) ==> (
            r matches Result::Err(m) && m@ == "rescan_interval_secs must be in range 15..=3600"@),
            value@.jpeg_quality <= 100 && 15 <= value@.rescan_interval_secs <= 3600 ==> (
            match norm_list(value@.watch_folders) {
                Result::Err(e) => r matches Result::Err(m) && m@ == e,
                Result::Ok(l) => r matches Result::Ok(c) && c@.watch_folders == dedup_keep_first(l)
                    && c@.recursive_watch == value@.recursive_watch && c@.output_policy == (
                match value@.output_policy {
                    OutputPolicyDto::Coexist => OutputPolicy::Coexist,
                    OutputPolicyDto::Replace => OutputPolicy::Replace,
                }) && c@.jpeg_quality == value@.jpeg_quality && c@.rescan_interval_secs
                    == value@.rescan_interval_secs && c@.paused == value@.paused && c@.locale
                    == AppLocale::En,
            }),
    {
        if value.jpeg_quality > 100 {
            let mut m = String::new();
            m.append("jpeg_quality must be in range 0..=100");
            return Result::Err(m);
        }
        if value.rescan_interval_secs < 15 || value.rescan_interval_secs > 3600 {
            let mut m = String::new();
            m.append("rescan_interval_secs must be in range 15..=3600");
            return Result::Err(m);
        }
        let AppConfigDto {
            watch_folders,
            recursive_watch,
            output_policy,
            jpeg_quality,
            rescan_interval_secs,
            paused,
        } = value;
        let ghost raws = watch_folders.deep_view();
        let mut out: Vec<String> = Vec::new();
        let ghost glist = Seq::<Seq<char>>::empty();
        proof {
            assert(raws.take(0) =~= Seq::<Seq<char>>::empty());
            assert(out.deep_view() =~= dedup_keep_first(glist));
        }
        let mut idx: usize = 0;
        while idx < watch_folders.len()
            invariant
                idx <= raws.len(),
                raws == watch_folders.deep_view(),
                raws == value@.watch_folders,
                value@.jpeg_quality <= 100,
                15 <= value@.rescan_interval_secs <= 3600,
                norm_list(raws.take(idx as int)) == Result::<Seq<Seq<char>>, Seq<char>>::Ok(glist),
                out.deep_view() == dedup_keep_first(glist),
            decreases raws.len() - idx,
        {
            let raw = &watch_folders[idx];
            proof {
                assert(raws[idx as int] == watch_folders@[idx as int]@);
                lemma_norm_list_push(raws.take(idx as int), raws[idx as int]);
                assert(raws.take(idx as int).push(raws[idx as int]) =~= raws.take(idx + 1));
            }
            match normalize_watch_folder_path(raw.as_str()) {
                Result::Err(m) => {
                    proof {
                        lemma_norm_list_err_prefix(raws, idx + 1);
                    }
                    return Result::Err(m);
                },
                Result::Ok(Option::None) => {},
                Result::Ok(Option::Some(p)) => {
                    let dup = crate::output::contains_path(&out, &p);
                    proof {
                        assert(crate::output::view_seq(out@) =~= out.deep_view());
                        lemma_dedup_contains(glist, p@);
                        assert(glist.push(p@).drop_last() =~= glist);
                        assert(glist.push(p@).last() == p@);
                    }
                    let ghost gp = p@;
                    let ghost before = out.deep_view();
                    if !dup {
                        out.push(p);
                        proof {
                            assert(out.deep_view() =~= before.push(gp));
                        }
                    }
                    proof {
                        glist = glist.push(gp);
                    }
                },
            }
            idx = idx + 1;
        }
        proof {
            assert(raws.take(raws.len() as int) =~= raws);
        }
        Result::Ok(
            AppConfig {
                watch_folders: out,
                recursive_watch,
                output_policy: OutputPolicy::from(output_policy),
                jpeg_quality,
                rescan_interval_secs,
                paused,
                locale: default_locale(),
            },
        )
    }
}

} // verus!
