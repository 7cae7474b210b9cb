//! Where the program keeps its files.

use crate::paths;
use vstd::prelude::*;
use vstd::string::*;

verus! {

/// What the command line and the environment say of directories.
#[derive(Clone, Debug, Default)]
pub struct Surroundings {
    /// The directory that the command line names.
    pub home_dir: Option<String>,
    /// `XDG_CONFIG_HOME`.
    pub xdg_config_home: Option<String>,
    /// `HOME`.
    pub home: Option<String>,
}

/// The directory of what is fetched where neither the command line nor a file names one.
pub open spec fn usual_dir(e: Surroundings) -> Seq<char> {
    let base = match (e.xdg_config_home, e.home) {
        (Some(x), _) => x@,
        (None, Some(h)) => paths::joined(h@, ".config"@),
        (None, None) => "."@,
    };
    paths::joined(base, "meow"@)
}

/// The directory of the program's files: the one that the command line names, else
/// `meow` in `XDG_CONFIG_HOME`, else `.config/meow` in `HOME`, else the one that the
/// program runs in.
pub open spec fn program_dir(e: Surroundings) -> Seq<char> {
    match (e.home_dir, e.xdg_config_home, e.home) {
        (Some(d), _, _) => d@,
        (None, Some(x), _) => paths::joined(x@, "meow"@),
        (None, None, Some(h)) => paths::joined(paths::joined(h@, ".config"@), "meow"@),
        (None, None, None) => "."@,
    }
}

/// The directory of what is fetched where neither the command line nor a file names one:
/// `meow` in `XDG_CONFIG_HOME`, else in `.config` in `HOME`, else in the directory that
/// the program runs in.
pub fn default_config_dir_without_home_override(e: &Surroundings) -> (d: String)
    ensures
        d@ == usual_dir(*e),
{
    let base = match (&e.xdg_config_home, &e.home) {
        (Some(x), _) => x.clone(),
        (None, Some(h)) => paths::join(h.as_str(), ".config"),
        (None, None) => ".".to_owned(),
    };
    paths::join(base.as_str(), "meow")
}

/// The directory of the program's files.
pub fn meow_config_dir(e: &Surroundings) -> (d: String)
    ensures
        d@ == program_dir(*e),
{
    if let Some(d) = &e.home_dir {
        return d.clone();
    }
    if e.xdg_config_home.is_none() && e.home.is_none() {
        return ".".to_owned();
    }
    default_config_dir_without_home_override(e)
}

/// Where the database of countries is looked for.
pub fn default_geoip_path(e: &Surroundings) -> (p: String)
    ensures
        p@ == paths::joined(program_dir(*e), "Country.mmdb"@),
{
    paths::join(meow_config_dir(e).as_str(), "Country.mmdb")
}

/// Where the database of autonomous systems is looked for.
pub fn default_asn_path(e: &Surroundings) -> (p: String)
    ensures
        p@ == paths::joined(program_dir(*e), "GeoLite2-ASN.mmdb"@),
{
    paths::join(meow_config_dir(e).as_str(), "GeoLite2-ASN.mmdb")
}

/// Where the database of sites is kept.
pub fn default_geosite_path(e: &Surroundings) -> (p: String)
    ensures
        p@ == paths::joined(program_dir(*e), "geosite.dat"@),
{
    paths::join(meow_config_dir(e).as_str(), "geosite.dat")
}

/// The directory of what is fetched for a configuration file.
pub open spec fn cache_dir(path: Seq<char>, e: Surroundings) -> Seq<char> {
    match (e.home_dir, paths::parent(path)) {
        (Some(d), _) => d@,
        (None, Some(p)) => if p.len() > 0 {
            p
        } else {
            usual_dir(e)
        },
        (None, None) => usual_dir(e),
    }
}

/// The directory of what is fetched for a configuration file: the one that the
/// command line names, else the one that the file is in, else the usual one.
pub fn resource_cache_dir_for_config_path_with_home(path: &str, e: &Surroundings) -> (d: String)
    ensures
        d@ == cache_dir(path@, *e),
{
    if let Some(d) = &e.home_dir {
        return d.clone();
    }
    match paths::parent_of(path) {
        Some(p) => if p.as_str().unicode_len() > 0 {
            p
        } else {
            default_config_dir_without_home_override(e)
        },
        None => default_config_dir_without_home_override(e),
    }
}

/// What is fetched never goes into the directory that the program happens to run in for
/// want of a better one.
pub proof fn law_a_bare_name_does_not_mean_here(path: Seq<char>, e: Surroundings)
    requires
        e.home_dir is None,
        paths::parent(path) matches Some(p) ==> p.len() == 0,
    ensures
        cache_dir(path, e) != "."@,
{
    reveal_strlit(".");
    reveal_strlit("meow");
    assert(cache_dir(path, e).last() == 'w');
}

/// A step of saving a file.
#[derive(Clone, Debug)]
pub enum SaveStep {
    /// Write the contents to a new file.
    Write { to: String },
    /// Copy the old file, so that one is kept while it still stands in its place. A
    /// failure of this step is passed over.
    Keep { from: String, to: String },
    /// Rename the new file, which puts it in its place.
    Replace { from: String, to: String },
}

/// A [`SaveStep`] with its texts as sequences.
pub enum SaveStepView {
    Write { to: Seq<char> },
    Keep { from: Seq<char>, to: Seq<char> },
    Replace { from: Seq<char>, to: Seq<char> },
}

impl View for SaveStep {
    type V = SaveStepView;

    open spec fn view(&self) -> SaveStepView {
        match self {
            SaveStep::Write { to } => SaveStepView::Write { to: to@ },
            SaveStep::Keep { from, to } => SaveStepView::Keep { from: from@, to: to@ },
            SaveStep::Replace { from, to } => SaveStepView::Replace { from: from@, to: to@ },
        }
    }
}

/// The steps of saving a file, so that at no time a half-written file stands in
/// its place.
pub open spec fn steps_of(path: Seq<char>, exists: bool) -> Seq<SaveStepView> {
    let temporary = path + ".tmp"@;
    let write = SaveStepView::Write { to: temporary };
    let keep = SaveStepView::Keep { from: path, to: path + ".bak"@ };
    let replace = SaveStepView::Replace { from: temporary, to: path };
    if exists {
        seq![write, keep, replace]
    } else {
        seq![write, replace]
    }
}

/// The steps of saving a file, given whether there is one already.
pub fn save_steps(path: &str, exists: bool) -> (steps: Vec<SaveStep>)
    ensures
        steps@.map_values(|s: SaveStep| s@) == steps_of(path@, exists),
{
    let mut steps: Vec<SaveStep> = Vec::new();
    steps.push(SaveStep::Write { to: path.to_owned().concat(".tmp") });
    if exists {
        steps.push(SaveStep::Keep { from: path.to_owned(), to: path.to_owned().concat(".bak") });
    }
    steps.push(SaveStep::Replace { from: path.to_owned().concat(".tmp"), to: path.to_owned() });
    assert(steps@.map_values(|s: SaveStep| s@) =~= steps_of(path@, exists));
    steps
}

/// The files of a disk, by their paths.
pub type Files = Map<Seq<char>, Seq<u8>>;

/// Whether two disks agree but for one path.
pub open spec fn same_but(a: Files, b: Files, path: Seq<char>) -> bool {
    forall|p: Seq<char>|
        p != path ==> #[trigger] a.contains_key(p) == b.contains_key(p) && (a.contains_key(p)
            ==> a[p] == b[p])
}

/// What a step can leave of a disk. A write or a copy that fails may leave anything
/// at its target, and touches nothing else. A rename is done wholly or not at all.
pub open spec fn leaves(
    step: SaveStepView,
    ok: bool,
    new: Seq<u8>,
    before: Files,
    after: Files,
) -> bool {
    match step {
        SaveStepView::Write { to } => {
            &&& same_but(after, before, to)
            &&& ok ==> after.contains_key(to) && after[to] == new
        },
        SaveStepView::Keep { from, to } => {
            &&& same_but(after, before, to)
            &&& ok ==> before.contains_key(from) && after.contains_key(to) && after[to]
                == before[from]
        },
        SaveStepView::Replace { from, to } => if ok {
            before.contains_key(from) && after == before.remove(from).insert(to, before[from])
        } else {
            after == before
        },
    }
}

/// Whether a step of saving a file was taken.
pub open spec fn taken(
    steps: Seq<SaveStepView>,
    ok: Seq<bool>,
    new: Seq<u8>,
    disks: Seq<Files>,
    k: int,
) -> bool {
    leaves(steps[k], ok[k], new, disks[k], disks[k + 1])
}

/// Whether disks are those that saving a file goes through, step by step, given which
/// of the steps succeeded. A step that fails is the last, unless it is one that is
/// passed over; saving may also be cut off after any step.
pub open spec fn saving(
    path: Seq<char>,
    new: Seq<u8>,
    ok: Seq<bool>,
    disks: Seq<Files>,
) -> bool {
    let steps = steps_of(path, disks[0].contains_key(path));
    &&& disks.len() == ok.len() + 1
    &&& ok.len() <= steps.len()
    &&& forall|k: int| 0 <= k < ok.len() ==> #[trigger] taken(steps, ok, new, disks, k)
    &&& forall|k: int| 0 <= k < ok.len() - 1 ==> #[trigger] ok[k] || steps[k] is Keep
}

/// Whether saving a file came to its end.
pub open spec fn saved(path: Seq<char>, ok: Seq<bool>, disks: Seq<Files>) -> bool {
    ok.len() == steps_of(path, disks[0].contains_key(path)).len() && ok.last()
}

proof fn lemma_places_differ(path: Seq<char>)
    ensures
        path != path + ".tmp"@,
        path != path + ".bak"@,
        path + ".tmp"@ != path + ".bak"@,
{
    reveal_strlit(".tmp");
    reveal_strlit(".bak");
    assert((path + ".tmp"@).len() == path.len() + 4);
    assert((path + ".bak"@).len() == path.len() + 4);
    assert((path + ".tmp"@)[path.len() as int + 1] == 't');
    assert((path + ".bak"@)[path.len() as int + 1] == 'b');
}

/// Saving a file is atomic. Wherever it is cut off and whichever step fails, the path
/// holds what it held before, or nothing as before, until the last step is done, and
/// from then on it holds the new contents.
pub proof fn law_saving_is_atomic(path: Seq<char>, new: Seq<u8>, ok: Seq<bool>, disks: Seq<Files>)
    requires
        saving(path, new, ok, disks),
    ensures
        saved(path, ok, disks) ==> disks.last().contains_key(path) && disks.last()[path] == new,
        !saved(path, ok, disks) ==> disks.last().contains_key(path) == disks[0].contains_key(path)
            && (disks[0].contains_key(path) ==> disks.last()[path] == disks[0][path]),
{
    lemma_places_differ(path);
    let steps = steps_of(path, disks[0].contains_key(path));
    if ok.len() > 0 {
        assert(taken(steps, ok, new, disks, 0));
        assert(disks[1].contains_key(path) == disks[0].contains_key(path));
    }
    if ok.len() > 1 {
        assert(ok[0] || steps[0] is Keep);
        assert(taken(steps, ok, new, disks, 1));
        assert(steps[1] is Keep ==> disks[2].contains_key(path) == disks[1].contains_key(path));
        assert(steps[1] is Keep ==> disks[2].contains_key(path + ".tmp"@) == disks[1].contains_key(
            path + ".tmp"@,
        ));
    }
    if ok.len() > 2 {
        assert(taken(steps, ok, new, disks, 2));
    }
}

/// A file that was saved leaves no file that was only half written behind, and the
/// file that it replaced is kept. Where there was none to replace, no file that was
/// kept before is touched.
pub proof fn law_saving_keeps_the_old_file(
    path: Seq<char>,
    new: Seq<u8>,
    ok: Seq<bool>,
    disks: Seq<Files>,
)
    requires
        saving(path, new, ok, disks),
        saved(path, ok, disks),
    ensures
        !disks.last().contains_key(path + ".tmp"@),
        disks[0].contains_key(path) && ok[1] ==> disks.last().contains_key(path + ".bak"@)
            && disks.last()[path + ".bak"@] == disks[0][path],
        !disks[0].contains_key(path) ==> disks.last().contains_key(path + ".bak"@)
            == disks[0].contains_key(path + ".bak"@) && (disks[0].contains_key(path + ".bak"@)
            ==> disks.last()[path + ".bak"@] == disks[0][path + ".bak"@]),
{
    lemma_places_differ(path);
    let steps = steps_of(path, disks[0].contains_key(path));
    let bak = path + ".bak"@;
    assert(taken(steps, ok, new, disks, 0));
    assert(taken(steps, ok, new, disks, 1));
    assert(disks[1].contains_key(path) == disks[0].contains_key(path));
    assert(disks[1].contains_key(bak) == disks[0].contains_key(bak));
    if disks[0].contains_key(path) {
        assert(taken(steps, ok, new, disks, 2));
    }
}

/// All that saving a file touches is in the directory of the file.
pub proof fn law_saving_stays_in_one_directory(path: Seq<char>)
    requires
        path.len() > paths::body_start(path),
        paths::last_part(path, paths::body_start(path)).len() > 0,
        paths::last_part(path, paths::body_start(path)) != seq!['.'],
    ensures
        forall|i: int|
            0 <= i < steps_of(path, true).len() ==> stays_in(
                #[trigger] steps_of(path, true)[i],
                paths::parent(path),
            ),
{
    reveal_strlit(".tmp");
    reveal_strlit(".bak");
    paths::law_endings_keep_the_directory(path, ".tmp"@);
    paths::law_endings_keep_the_directory(path, ".bak"@);
}

/// Whether a step touches nothing outside a directory.
pub open spec fn stays_in(s: SaveStepView, dir: Option<Seq<char>>) -> bool {
    match s {
        SaveStepView::Write { to } => paths::parent(to) == dir,
        SaveStepView::Keep { from, to } => paths::parent(from) == dir && paths::parent(to) == dir,
        SaveStepView::Replace { from, to } => paths::parent(from) == dir && paths::parent(to)
            == dir,
    }
}

} // verus!
