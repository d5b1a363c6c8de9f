//! The backup tool's configuration records and the pure pieces of driving
//! it: expanding home-relative paths, assembling environment variables and
//! retention arguments, classifying diff output, and composing the desktop
//! notifications about backup runs. Running the tool itself is outside the
//! library.

use vstd::prelude::*;

verus! {

use crate::strutil::{spec_trim, trim, spec_lower, to_lower, string_eq_str, spec_dec, fmt_u64};
use crate::schedule::{spec_split, split_char};

/// Where the backup repository lives and how it is unlocked.
#[derive(Debug, Clone)]
pub struct RepositoryConfig {
    pub path: String,
    pub password_file: String,
}

/// The network mount the repository sits on.
#[derive(Debug, Clone)]
pub struct MountConfig {
    pub path: String,
    pub auto_mount: bool,
    pub mount_command: String,
}

/// What to back up and what to skip.
#[derive(Debug, Clone)]
pub struct BackupConfig {
    pub script: Option<String>,
    pub paths: Vec<String>,
    pub excludes: Vec<String>,
    pub tag: String,
}

/// The scheduler units that drive unattended backups.
#[derive(Debug, Clone)]
pub struct SystemdConfig {
    pub timer: String,
    pub service: String,
}

/// How many daily, weekly and monthly snapshots to keep.
#[derive(Debug, Clone)]
pub struct RetentionConfig {
    pub daily: i32,
    pub weekly: i32,
    pub monthly: i32,
}

/// The whole backup configuration.
#[derive(Debug, Clone)]
pub struct ResticConfig {
    pub repository: RepositoryConfig,
    pub mount: MountConfig,
    pub backup: BackupConfig,
    pub systemd: SystemdConfig,
    pub retention: RetentionConfig,
}

/// The result of a repository check.
#[derive(Debug, Clone)]
pub struct CheckResult {
    pub success: bool,
    pub message: String,
}

/// The paths a diff between two snapshots reports as added, removed and
/// modified.
#[derive(Debug, Clone)]
pub struct DiffResult {
    pub added: Vec<String>,
    pub removed: Vec<String>,
    pub modified: Vec<String>,
}

impl Default for ResticConfig {
    /// The stock configuration: the standard repository and mount paths,
    /// the usual configuration directories backed up, caches excluded, and
    /// a week of daily, a month of weekly and half a year of monthly
    /// snapshots kept.
    fn default() -> (r: ResticConfig)
        ensures
            r.repository.path@ == "/media/nas_backup/restic-repo"@,
            r.repository.password_file@ == "~/.config/restic/password.txt"@,
            r.mount.path@ == "/media/nas_backup"@,
            r.mount.auto_mount == true,
            r.mount.mount_command@ == "sudo mount /media/nas_backup"@,
            r.backup.script is None,
            r.backup.paths@.len() == 2,
            r.backup.paths@[0]@ == "~/.config"@,
            r.backup.paths@[1]@ == "~/.local/bin"@,
            r.backup.excludes@.len() == 3,
            r.backup.excludes@[0]@ == "*.cache"@,
            r.backup.excludes@[1]@ == "node_modules"@,
            r.backup.excludes@[2]@ == ".venv"@,
            r.backup.tag@ == "fedora"@,
            r.systemd.timer@ == "restic-backup.timer"@,
            r.systemd.service@ == "restic-backup.service"@,
            r.retention.daily == 7,
            r.retention.weekly == 4,
            r.retention.monthly == 6,
    {
        let mut paths: Vec<String> = Vec::new();
        paths.push(String::from_str("~/.config"));
        paths.push(String::from_str("~/.local/bin"));
        let mut excludes: Vec<String> = Vec::new();
        excludes.push(String::from_str("*.cache"));
        excludes.push(String::from_str("node_modules"));
        excludes.push(String::from_str(".venv"));
        ResticConfig {
            repository: RepositoryConfig {
                path: String::from_str("/media/nas_backup/restic-repo"),
                password_file: String::from_str("~/.config/restic/password.txt"),
            },
            mount: MountConfig {
                path: String::from_str("/media/nas_backup"),
                auto_mount: true,
                mount_command: String::from_str("sudo mount /media/nas_backup"),
            },
            backup: BackupConfig {
                script: None,
                paths,
                excludes,
                tag: String::from_str("fedora"),
            },
            systemd: SystemdConfig {
                timer: String::from_str("restic-backup.timer"),
                service: String::from_str("restic-backup.service"),
            },
            retention: RetentionConfig { daily: 7, weekly: 4, monthly: 6 },
        }
    }
}

/// A path with a `~/` prefix replaced by the home directory; any other
/// path unchanged.
pub open spec fn spec_expand_path(p: Seq<char>, home: Seq<char>) -> Seq<char> {
    if p.len() >= 2 && p[0] == '~' && p[1] == '/' {
        home + p.skip(1)
    } else {
        p
    }
}

/// Expand a leading `~/` to the given home directory.
pub fn expand_path(path: &str, home: &str) -> (r: String)
    ensures
        r@ == spec_expand_path(path@, home@),
{
    let len = path.unicode_len();
    if len >= 2 && path.get_char(0) == '~' && path.get_char(1) == '/' {
        let mut out = home.to_owned();
        let rest = path.substring_char(1, len);
        out.append(rest);
        proof {
            assert(rest@ =~= path@.skip(1));
        }
        out
    } else {
        path.to_owned()
    }
}

/// The environment the backup tool runs with: the repository path and the
/// password file, both home-expanded.
pub fn get_env_vars(config: &ResticConfig, home: &str) -> (r: Vec<(String, String)>)
    ensures
        r@.len() == 2,
        r@[0].0@ == "RESTIC_REPOSITORY"@,
        r@[0].1@ == spec_expand_path(config.repository.path@, home@),
        r@[1].0@ == "RESTIC_PASSWORD_FILE"@,
        r@[1].1@ == spec_expand_path(config.repository.password_file@, home@),
{
    let mut out: Vec<(String, String)> = Vec::new();
    out.push(
        (String::from_str("RESTIC_REPOSITORY"), expand_path(config.repository.path.as_str(), home)),
    );
    out.push(
        (
            String::from_str("RESTIC_PASSWORD_FILE"),
            expand_path(config.repository.password_file.as_str(), home),
        ),
    );
    out
}

/// A signed number in decimal.
pub open spec fn spec_dec_signed(n: int) -> Seq<char> {
    if n < 0 {
        seq!['-'] + spec_dec(-n)
    } else {
        spec_dec(n)
    }
}

fn fmt_i64(n: i64) -> (r: String)
    requires
        n > i64::MIN,
    ensures
        r@ == spec_dec_signed(n as int),
{
    if n < 0 {
        let mut out = String::new();
        out.append("-");
        let d = fmt_u64((-n) as u64);
        out.append(d.as_str());
        proof {
            reveal_strlit("-");
            assert(out@ =~= spec_dec_signed(n as int));
        }
        out
    } else {
        fmt_u64(n as u64)
    }
}

/// One `--keep-...=` retention argument.
pub open spec fn spec_keep_arg(prefix: Seq<char>, n: int) -> Seq<char> {
    prefix + spec_dec_signed(n)
}

/// The argument list of a retention run: `forget` with either the dry-run
/// flags or the prune flag, then the three keep counts.
pub fn build_forget_args(retention: &RetentionConfig, dry_run: bool) -> (r: Vec<String>)
    ensures
        ({
            let head: Seq<Seq<char>> = if dry_run {
                seq!["forget"@, "--dry-run"@, "--json"@]
            } else {
                seq!["forget"@, "--prune"@]
            };
            &&& r@.len() == head.len() + 3
            &&& forall|i: int| 0 <= i < head.len() ==> #[trigger] r@[i]@ == head[i]
            &&& r@[head.len() as int]@ == spec_keep_arg("--keep-daily="@, retention.daily as int)
            &&& r@[head.len() as int + 1]@ == spec_keep_arg("--keep-weekly="@, retention.weekly as int)
            &&& r@[head.len() as int + 2]@ == spec_keep_arg("--keep-monthly="@, retention.monthly as int)
        }),
{
    let mut out: Vec<String> = Vec::new();
    out.push(String::from_str("forget"));
    if dry_run {
        out.push(String::from_str("--dry-run"));
        out.push(String::from_str("--json"));
    } else {
        out.push(String::from_str("--prune"));
    }
    let mut daily = String::from_str("--keep-daily=");
    let dv = fmt_i64(retention.daily as i64);
    daily.append(dv.as_str());
    out.push(daily);
    let mut weekly = String::from_str("--keep-weekly=");
    let wv = fmt_i64(retention.weekly as i64);
    weekly.append(wv.as_str());
    out.push(weekly);
    let mut monthly = String::from_str("--keep-monthly=");
    let mv = fmt_i64(retention.monthly as i64);
    monthly.append(mv.as_str());
    out.push(monthly);
    out
}

/// The classified lines of a diff listing, as three path lists: lines
/// opening with `+` are additions, with `-` removals, with `M`
/// modifications; the path is the rest of the line, trimmed. Anything else
/// is ignored.
pub open spec fn spec_diff_lines(lines: Seq<Seq<char>>) -> (Seq<Seq<char>>, Seq<Seq<char>>, Seq<
    Seq<char>,
>)
    decreases lines.len(),
{
    if lines.len() == 0 {
        (Seq::empty(), Seq::empty(), Seq::empty())
    } else {
        let (a, rm, m) = spec_diff_lines(lines.drop_last());
        let line = lines.last();
        if line.len() < 2 {
            (a, rm, m)
        } else if line[0] == '+' {
            (a.push(spec_trim(line.skip(1))), rm, m)
        } else if line[0] == '-' {
            (a, rm.push(spec_trim(line.skip(1))), m)
        } else if line[0] == 'M' {
            (a, rm, m.push(spec_trim(line.skip(1))))
        } else {
            (a, rm, m)
        }
    }
}

/// Classify the output of a diff between two snapshots.
pub fn parse_diff_output(output: &str) -> (r: DiffResult)
    ensures
        ({
            let (a, rm, m) = spec_diff_lines(spec_split(output@, '\n'));
            &&& r.added@.map_values(|x: String| x@) == a
            &&& r.removed@.map_values(|x: String| x@) == rm
            &&& r.modified@.map_values(|x: String| x@) == m
        }),
{
    let lines = split_char(output, '\n');
    let ghost sp = spec_split(output@, '\n');
    let mut added: Vec<String> = Vec::new();
    let mut removed: Vec<String> = Vec::new();
    let mut modified: Vec<String> = Vec::new();
    let mut i: usize = 0;
    proof {
        assert(sp.take(0) =~= Seq::<Seq<char>>::empty());
        assert(added@.map_values(|x: String| x@) =~= spec_diff_lines(sp.take(0)).0);
        assert(removed@.map_values(|x: String| x@) =~= spec_diff_lines(sp.take(0)).1);
        assert(modified@.map_values(|x: String| x@) =~= spec_diff_lines(sp.take(0)).2);
    }
    while i < lines.len()
        invariant
            i <= lines@.len(),
            lines@.map_values(|x: String| x@) == sp,
            added@.map_values(|x: String| x@) == spec_diff_lines(sp.take(i as int)).0,
            removed@.map_values(|x: String| x@) == spec_diff_lines(sp.take(i as int)).1,
            modified@.map_values(|x: String| x@) == spec_diff_lines(sp.take(i as int)).2,
        decreases lines@.len() - i,
    {
        let ghost pre_a = added@.map_values(|x: String| x@);
        let ghost pre_r = removed@.map_values(|x: String| x@);
        let ghost pre_m = modified@.map_values(|x: String| x@);
        proof {
            assert(sp.take(i + 1).drop_last() =~= sp.take(i as int));
            assert(sp.take(i + 1).last() == sp[i as int]);
            assert(sp[i as int] == lines@[i as int]@);
        }
        let line = &lines[i];
        let llen = line.as_str().unicode_len();
        if llen >= 2 {
            let c0 = line.as_str().get_char(0);
            let rest = line.as_str().substring_char(1, llen);
            proof {
                assert(rest@ =~= line@.skip(1));
            }
            if c0 == '+' {
                added.push(trim(rest));
                proof {
                    assert(added@.map_values(|x: String| x@) =~= pre_a.push(
                        spec_trim(lines@[i as int]@.skip(1)),
                    ));
                }
            } else if c0 == '-' {
                removed.push(trim(rest));
                proof {
                    assert(removed@.map_values(|x: String| x@) =~= pre_r.push(
                        spec_trim(lines@[i as int]@.skip(1)),
                    ));
                }
            } else if c0 == 'M' {
                modified.push(trim(rest));
                proof {
                    assert(modified@.map_values(|x: String| x@) =~= pre_m.push(
                        spec_trim(lines@[i as int]@.skip(1)),
                    ));
                }
            }
        }
        i += 1;
    }
    proof {
        assert(sp.take(lines@.len() as int) =~= sp);
    }
    DiffResult { added, removed, modified }
}

/// A notification urgency normalized to the three levels the desktop
/// accepts; anything unknown reads as normal.
pub fn normalize_urgency(urgency: &str) -> (r: &'static str)
    ensures
        ({
            let l = spec_lower(urgency@);
            &&& l == "low"@ ==> r@ == "low"@
            &&& l == "normal"@ ==> r@ == "normal"@
            &&& l == "critical"@ ==> r@ == "critical"@
            &&& l != "low"@ && l != "critical"@ ==> r@ == "normal"@
        }),
{
    let l = to_lower(urgency);
    if string_eq_str(&l, "low") {
        "low"
    } else if string_eq_str(&l, "critical") {
        "critical"
    } else {
        "normal"
    }
}

/// Compose the desktop notification for a finished backup: the title, the
/// body, the urgency and the icon. A success names the snapshot by its
/// first eight characters and appends the optional message; a failure
/// carries the message, or a stock sentence, at critical urgency.
pub fn compose_backup_notification(snapshot_id: &str, success: bool, message: &Option<String>) -> (
    r: (String, String, String, String))
    ensures
        success ==> {
            &&& r.0@ == "Backup Completed"@
            &&& r.1@ == "Snapshot "@ + (if snapshot_id@.len() <= 8 {
                snapshot_id@
            } else {
                snapshot_id@.take(8)
            }) + " created successfully."@ + (match message {
                Some(m) => " "@ + m@,
                None => Seq::<char>::empty(),
            })
            &&& r.2@ == "normal"@
            &&& r.3@ == "dialog-information"@
        },
        !success ==> {
            &&& r.0@ == "Backup Failed"@
            &&& r.1@ == (match message {
                Some(m) => m@,
                None => "An error occurred during backup."@,
            })
            &&& r.2@ == "critical"@
            &&& r.3@ == "dialog-error"@
        },
{
    if success {
        let len = snapshot_id.unicode_len();
        let cut: usize = if len <= 8 {
            len
        } else {
            8
        };
        let prefix = snapshot_id.substring_char(0, cut);
        let mut body = String::from_str("Snapshot ");
        body.append(prefix);
        body.append(" created successfully.");
        match message {
            Some(m) => {
                body.append(" ");
                body.append(m.as_str());
            },
            None => {},
        }
        proof {
            assert(prefix@ =~= (if snapshot_id@.len() <= 8 {
                snapshot_id@
            } else {
                snapshot_id@.take(8)
            }));
        }
        (
            String::from_str("Backup Completed"),
            body,
            String::from_str("normal"),
            String::from_str("dialog-information"),
        )
    } else {
        let body: String = match message {
            Some(m) => m.clone(),
            None => String::from_str("An error occurred during backup."),
        };
        (
            String::from_str("Backup Failed"),
            body,
            String::from_str("critical"),
            String::from_str("dialog-error"),
        )
    }
}

} // verus!
