//! Where new documents go and what they start with: the folder of each
//! document type under the flight-level configuration, the phase a new
//! document starts in, the backlog folder chosen by label, and ADR numbering.

use vstd::prelude::*;
use crate::config::{preset_of, FlightLevelConfig};
use crate::paths::{concat_chars, join, path_join};
use crate::text::{opt_view, chars_ends_with, chars_eq, chars_of, ends_with, string_from_chars, str_is};
use crate::types::{DocumentType, Phase};
use crate::reassignment::{category_directory, category_named, BacklogCategory};

verus! {

/// A tag of a document: a label such as `bug`, or its phase.
#[derive(Debug, PartialEq, Eq)]
pub enum Tag {
    Label(String),
    Phase(Phase),
}

/// The mathematical form of a tag.
pub enum TagView {
    Label(Seq<char>),
    Phase(Phase),
}

impl View for Tag {
    type V = TagView;

    open spec fn view(&self) -> TagView {
        match self {
            Tag::Label(s) => TagView::Label(s@),
            Tag::Phase(p) => TagView::Phase(*p),
        }
    }
}

impl Tag {
    /// A copy of the tag.
    pub fn duplicate(&self) -> (res: Tag)
        ensures
            res@ == self@,
    {
        match self {
            Tag::Label(s) => Tag::Label(s.clone()),
            Tag::Phase(p) => Tag::Phase(*p),
        }
    }
}

/// What a new document is made from.
pub struct DocumentCreationConfig {
    pub title: String,
    pub description: Option<String>,
    /// An explicit parent (a short code or document id).
    pub parent_id: Option<String>,
    pub tags: Vec<Tag>,
    /// The phase to start in; each type has its own default.
    pub phase: Option<Phase>,
}

/// What creating a document gave.
pub struct CreationResult {
    pub document_id: String,
    pub document_type: DocumentType,
    pub file_path: String,
    pub short_code: String,
}

/// Why a document could not be created.
#[derive(Debug, PartialEq, Eq)]
pub enum CreationError {
    /// The workspace already has its vision.
    VisionExists,
    /// A document of this type with this short code is already on disk.
    AlreadyExists(DocumentType, String),
    /// Initiatives are disabled in the named preset.
    InitiativesDisabled(String),
    /// Strategies are enabled in the named preset, but the initiative was given no strategy.
    InitiativeNeedsStrategy(String),
    /// Initiatives are enabled in the named preset, but the task was given no initiative.
    TaskNeedsInitiative(String),
    /// Strategies are enabled in the named preset, but the task was given no strategy.
    TaskNeedsStrategy(String),
    /// The parent of this type with this short code was not found.
    ParentNotFound(DocumentType, String),
    /// The parent initiative is known, but its document is not where its short
    /// codes say it lives.
    ParentNotAtExpectedPath(String),
}

/// The placeholder written where a level is absent.
pub open spec fn null_id() -> Seq<char> {
    "NULL"@
}

/// The phase a new document starts in: the one asked for, else the default.
pub open spec fn starting_phase(asked: Option<Phase>, default: Phase) -> Phase {
    match asked {
        Some(p) => p,
        None => default,
    }
}

/// The tags of a new document: its type label, its phase, then the tags asked for.
pub open spec fn initial_tags_of(label: Seq<char>, phase: Phase, extra: Seq<TagView>) -> Seq<TagView> {
    seq![TagView::Label(label), TagView::Phase(phase)] + extra
}

/// The views of a list of tags.
pub open spec fn tag_views(tags: Seq<Tag>) -> Seq<TagView> {
    tags.map_values(|t: Tag| t@)
}

/// Builds the tags of a new document of type `label`, starting in the phase
/// asked for or in `default_phase`, followed by the tags asked for.
pub fn initial_tags(label: &str, asked: Option<Phase>, default_phase: Phase, extra: &Vec<Tag>) -> (res: Vec<Tag>)
    ensures
        tag_views(res@) == initial_tags_of(label@, starting_phase(asked, default_phase), tag_views(extra@)),
{
    let phase = match asked {
        Some(p) => p,
        None => default_phase,
    };
    let mut out: Vec<Tag> = Vec::new();
    out.push(Tag::Label(label.to_owned()));
    out.push(Tag::Phase(phase));
    let mut i: usize = 0;
    while i < extra.len()
        invariant
            i <= extra@.len(),
            out@.len() == i + 2,
            tag_views(out@) == initial_tags_of(label@, phase, tag_views(extra@.take(i as int))),
        decreases extra@.len() - i,
    {
        let t = extra[i].duplicate();
        let ghost before = out@;
        out.push(t);
        proof {
            assert(out@ =~= before.push(t));
            assert(tag_views(extra@.take(i + 1)) =~= tag_views(extra@.take(i as int)).push(extra@[i as int]@));
            assert(tag_views(out@) =~= tag_views(before).push(t@));
        }
        i = i + 1;
    }
    assert(extra@.take(extra@.len() as int) =~= extra@);
    out
}

/// Places an initiative under a flight-level configuration. `strategy_id` is the
/// strategy asked for (`NULL` for none); `found` is the short code the strategy
/// was found under, which is looked up only when strategies are enabled and a
/// strategy is given. Initiatives must be enabled; with strategies enabled the
/// initiative hangs under the strategy and lives in its folder; otherwise it
/// lives in the `NULL` strategy folder.
pub fn initiative_placement(flight: &FlightLevelConfig, strategy_id: &str, found: Option<String>)
    -> (res: Result<(Option<String>, String), CreationError>)
    ensures
        !flight.initiatives_enabled ==> (res matches Err(CreationError::InitiativesDisabled(p)) && p@ == preset_of(*flight)),
        flight.initiatives_enabled && flight.strategies_enabled && strategy_id@ == null_id() ==> (res matches Err(
            CreationError::InitiativeNeedsStrategy(p),
        ) && p@ == preset_of(*flight)),
        flight.initiatives_enabled && flight.strategies_enabled && strategy_id@ != null_id() ==> match found {
            Some(code) => res matches Ok((Some(parent), dir)) && parent@ == strategy_id@ && dir@ == code@,
            None => res matches Err(CreationError::ParentNotFound(t, id)) && t == DocumentType::Strategy && id@ == strategy_id@,
        },
        flight.initiatives_enabled && !flight.strategies_enabled ==> (res matches Ok((None, dir)) && dir@ == null_id()),
{
    if !flight.initiatives_enabled {
        return Err(CreationError::InitiativesDisabled(flight.preset_name().to_owned()));
    }
    if flight.strategies_enabled {
        if str_is(strategy_id, &chars_of("NULL")) {
            return Err(CreationError::InitiativeNeedsStrategy(flight.preset_name().to_owned()));
        }
        match found {
            Some(code) => Ok((Some(strategy_id.to_owned()), code)),
            None => Err(CreationError::ParentNotFound(DocumentType::Strategy, strategy_id.to_owned())),
        }
    } else {
        Ok((None, "NULL".to_owned()))
    }
}

/// What placing a task gives, as `task_placement` decides it, for the parents
/// asked for and the short codes they were found under (`fi`, `fs`).
pub open spec fn placement_meets(
    flight: FlightLevelConfig,
    strategy_id: Seq<char>,
    initiative_id: Seq<char>,
    fi: Option<Seq<char>>,
    fs: Option<Seq<char>>,
    res: Result<TaskPlacement, CreationError>,
) -> bool {
    &&& !flight.initiatives_enabled ==> (res matches Ok(p) && p.parent is None && p.parent_title is None
        && p.strategy@ == null_id() && p.initiative@ == null_id())
    &&& flight.initiatives_enabled && initiative_id == null_id() ==> (res matches Err(CreationError::TaskNeedsInitiative(p))
        && p@ == preset_of(flight))
    &&& flight.initiatives_enabled && initiative_id != null_id() && fi is None ==> (res matches Err(
        CreationError::ParentNotFound(t, id),
    ) && t == DocumentType::Initiative && id@ == initiative_id)
    &&& flight.initiatives_enabled && initiative_id != null_id() && fi is Some && flight.strategies_enabled
        && strategy_id != null_id() && fs is None ==> (res matches Err(CreationError::ParentNotFound(t, id))
        && t == DocumentType::Strategy && id@ == strategy_id)
    &&& flight.initiatives_enabled && initiative_id != null_id() && fi is Some && flight.strategies_enabled
        && strategy_id == null_id() ==> (res matches Err(CreationError::TaskNeedsStrategy(p)) && p@ == preset_of(flight))
    &&& flight.initiatives_enabled && initiative_id != null_id() && fi is Some && !(flight.strategies_enabled
        && (strategy_id == null_id() || fs is None)) ==> (res matches Ok(p)
        && opt_view(p.parent) == Some(initiative_id)
        && opt_view(p.parent_title) == Some(initiative_id)
        && p.initiative@ == fi->0
        && p.strategy@ == if flight.strategies_enabled { fs->0 } else { null_id() })
}

/// Places a task under a flight-level configuration. `strategy_id` and
/// `initiative_id` are the parents asked for (`NULL` for none); `found_initiative`
/// and `found_strategy` are the short codes they were found under (looked up
/// only when initiatives are enabled and an initiative is given, the strategy
/// also only when strategies are enabled and one is given). With initiatives
/// enabled the task hangs under its initiative and lives in its folder; without
/// them it lives in the `NULL` folders.
pub fn task_placement(
    flight: &FlightLevelConfig,
    strategy_id: &str,
    initiative_id: &str,
    found_initiative: Option<String>,
    found_strategy: Option<String>,
) -> (res: Result<TaskPlacement, CreationError>)
    ensures
        placement_meets(*flight, strategy_id@, initiative_id@, opt_view(found_initiative), opt_view(found_strategy), res),
{
    if !flight.initiatives_enabled {
        return Ok(TaskPlacement { parent: None, parent_title: None, strategy: "NULL".to_owned(), initiative: "NULL".to_owned() });
    }
    let initiative_null = str_is(initiative_id, &chars_of("NULL"));
    let strategy_null = str_is(strategy_id, &chars_of("NULL"));
    if initiative_null {
        return Err(CreationError::TaskNeedsInitiative(flight.preset_name().to_owned()));
    }
    let initiative_code = match found_initiative {
        Some(c) => c,
        None => {
            return Err(CreationError::ParentNotFound(DocumentType::Initiative, initiative_id.to_owned()));
        },
    };
    let strategy_code = if flight.strategies_enabled && !strategy_null {
        match found_strategy {
            Some(c) => c,
            None => {
                return Err(CreationError::ParentNotFound(DocumentType::Strategy, strategy_id.to_owned()));
            },
        }
    } else {
        "NULL".to_owned()
    };
    if flight.strategies_enabled && strategy_null {
        return Err(CreationError::TaskNeedsStrategy(flight.preset_name().to_owned()));
    }
    Ok(TaskPlacement {
        parent: Some(initiative_id.to_owned()),
        parent_title: Some(initiative_id.to_owned()),
        strategy: strategy_code,
        initiative: initiative_code,
    })
}

/// Where the parent initiative's document of a task must be when the task is
/// placed under initiative `found_initiative` (the strategy folder being
/// `found_strategy`, or `NULL` when strategies are off or none was given):
/// `None` when no such check is made, because initiatives are off, no
/// initiative was given, or a parent was not found.
pub open spec fn initiative_file_checked(
    flight: FlightLevelConfig,
    strategy_id: Seq<char>,
    initiative_id: Seq<char>,
    found_initiative: Option<Seq<char>>,
    found_strategy: Option<Seq<char>>,
) -> Option<(Seq<char>, Seq<char>)> {
    if !flight.initiatives_enabled || initiative_id == null_id() {
        None
    } else {
        match found_initiative {
            None => None,
            Some(code) => if flight.strategies_enabled && strategy_id != null_id() {
                match found_strategy {
                    Some(sc) => Some((sc, code)),
                    None => None,
                }
            } else {
                Some((null_id(), code))
            },
        }
    }
}

/// Places a task, checking on the way that the parent initiative's document is
/// on disk, in the order the checks are made: the initiative and strategy
/// lookups, then the initiative's document (`initiative_file_exists` says
/// whether `initiative.md` is in the folder named by `initiative_file_checked`),
/// then the placement rules of `task_placement`.
pub fn task_placement_checked(
    flight: &FlightLevelConfig,
    strategy_id: &str,
    initiative_id: &str,
    found_initiative: Option<String>,
    found_strategy: Option<String>,
    initiative_file_exists: bool,
) -> (res: Result<TaskPlacement, CreationError>)
    ensures
        ({
            let fi = opt_view(found_initiative);
            let fs = opt_view(found_strategy);
            let checked = initiative_file_checked(*flight, strategy_id@, initiative_id@, fi, fs);
            if checked is Some && !initiative_file_exists {
                res matches Err(CreationError::ParentNotAtExpectedPath(id)) && id@ == initiative_id@
            } else {
                placement_meets(*flight, strategy_id@, initiative_id@, fi, fs, res)
            }
        }),
{
    let ghost fi = opt_view(found_initiative);
    let ghost fs = opt_view(found_strategy);
    let checked = flight.initiatives_enabled && !str_is(initiative_id, &chars_of("NULL")) && found_initiative.is_some()
        && (!(flight.strategies_enabled && !str_is(strategy_id, &chars_of("NULL"))) || found_strategy.is_some());
    assert(checked == (initiative_file_checked(*flight, strategy_id@, initiative_id@, fi, fs) is Some));
    if checked && !initiative_file_exists {
        return Err(CreationError::ParentNotAtExpectedPath(initiative_id.to_owned()));
    }
    task_placement(flight, strategy_id, initiative_id, found_initiative, found_strategy)
}

/// Where a new task goes and what it hangs under.
pub struct TaskPlacement {
    /// The parent initiative, when initiatives are enabled.
    pub parent: Option<String>,
    /// The parent's title for the document template (its id).
    pub parent_title: Option<String>,
    /// The strategy folder (`NULL` when absent).
    pub strategy: String,
    /// The initiative folder (`NULL` when absent).
    pub initiative: String,
}

/// Creates documents in a workspace.
pub struct DocumentCreationService {
    workspace_dir: String,
    db_path: String,
}

/// The backlog folder a label sends a backlog item to.
pub open spec fn backlog_subdir(label: Seq<char>) -> Option<Seq<char>> {
    if label == "bug"@ {
        Some("bugs"@)
    } else if label == "feature"@ {
        Some("features"@)
    } else if label == "tech-debt"@ {
        Some("tech-debt"@)
    } else {
        None
    }
}

/// The backlog subfolder chosen by the first tag among `tags` that is a label
/// with a folder of its own (none without such a tag).
pub open spec fn backlog_choice(tags: Seq<TagView>) -> Option<Seq<char>>
    decreases tags.len(),
{
    if tags.len() == 0 {
        None
    } else {
        match tags[0] {
            TagView::Label(l) => match backlog_subdir(l) {
                Some(d) => Some(d),
                None => backlog_choice(tags.drop_first()),
            },
            TagView::Phase(_) => backlog_choice(tags.drop_first()),
        }
    }
}

impl DocumentCreationService {
    /// The workspace folder.
    pub closed spec fn workspace(&self) -> Seq<char> {
        self.workspace_dir@
    }

    /// The database of the workspace.
    pub closed spec fn database(&self) -> Seq<char> {
        self.db_path@
    }

    /// A service for the workspace folder `workspace_dir`, whose database is
    /// `metis.db` inside it.
    pub fn new(workspace_dir: &str) -> (res: Self)
        ensures
            res.workspace() == workspace_dir@,
            res.database() == path_join(workspace_dir@, "metis.db"@),
    {
        DocumentCreationService { workspace_dir: workspace_dir.to_owned(), db_path: join(workspace_dir, "metis.db") }
    }

    /// The database file of the workspace.
    pub fn db_path(&self) -> (res: String)
        ensures
            res@ == self.database(),
    {
        self.db_path.clone()
    }

    /// Where the vision lives: `vision.md` in the workspace.
    pub fn vision_path(&self) -> (res: String)
        ensures
            res@ == path_join(self.workspace(), "vision.md"@),
    {
        join(self.workspace_dir.as_str(), "vision.md")
    }

    /// Where a strategy lives: `strategies/<code>/strategy.md`.
    pub fn strategy_path(&self, short_code: &str) -> (res: String)
        ensures
            res@ == path_join(path_join(path_join(self.workspace(), "strategies"@), short_code@), "strategy.md"@),
    {
        join(join(join(self.workspace_dir.as_str(), "strategies").as_str(), short_code).as_str(), "strategy.md")
    }

    /// The folder of an initiative: `strategies/<strategy>/initiatives/<code>`.
    pub fn initiative_dir(&self, strategy: &str, short_code: &str) -> (res: String)
        ensures
            res@ == path_join(path_join(path_join(path_join(self.workspace(), "strategies"@), strategy@), "initiatives"@), short_code@),
    {
        let s = join(join(self.workspace_dir.as_str(), "strategies").as_str(), strategy);
        join(join(s.as_str(), "initiatives").as_str(), short_code)
    }

    /// The folder of the tasks of an initiative:
    /// `strategies/<strategy>/initiatives/<initiative>/tasks`.
    pub fn task_dir(&self, strategy: &str, initiative: &str) -> (res: String)
        ensures
            res@ == path_join(path_join(path_join(path_join(path_join(self.workspace(), "strategies"@), strategy@), "initiatives"@),
                initiative@), "tasks"@),
    {
        let d = self.initiative_dir(strategy, initiative);
        join(d.as_str(), "tasks")
    }

    /// Where an ADR lives: `adrs/<code>.md`.
    pub fn adr_path(&self, short_code: &str) -> (res: String)
        ensures
            res@ == path_join(path_join(self.workspace(), "adrs"@), short_code@ + ".md"@),
    {
        let name = string_from_chars(&concat_chars(&chars_of(short_code), &chars_of(".md")));
        join(join(self.workspace_dir.as_str(), "adrs").as_str(), name.as_str())
    }

    /// The backlog folder for a new backlog item: `backlog/bugs`,
    /// `backlog/features` or `backlog/tech-debt` by the first tag labelled
    /// `bug`, `feature` or `tech-debt`, else `backlog` itself.
    pub fn determine_backlog_directory(&self, tags: &Vec<Tag>) -> (res: String)
        ensures
            res@ == match backlog_choice(tag_views(tags@)) {
                Some(d) => path_join(path_join(self.workspace(), "backlog"@), d),
                None => path_join(self.workspace(), "backlog"@),
            },
    {
        let base = join(self.workspace_dir.as_str(), "backlog");
        let mut i: usize = 0;
        assert(tag_views(tags@).skip(0) =~= tag_views(tags@));
        while i < tags.len()
            invariant
                i <= tags@.len(),
                base@ == path_join(self.workspace(), "backlog"@),
                backlog_choice(tag_views(tags@)) == backlog_choice(tag_views(tags@).skip(i as int)),
            decreases tags@.len() - i,
        {
            let ghost rest = tag_views(tags@).skip(i as int);
            assert(rest[0] == tags@[i as int]@);
            assert(rest.drop_first() =~= tag_views(tags@).skip(i + 1));
            if let Tag::Label(label) = &tags[i] {
                let l = chars_of(label.as_str());
                if chars_eq(&l, &chars_of("bug")) {
                    return join(base.as_str(), "bugs");
                } else if chars_eq(&l, &chars_of("feature")) {
                    return join(base.as_str(), "features");
                } else if chars_eq(&l, &chars_of("tech-debt")) {
                    return join(base.as_str(), "tech-debt");
                }
            }
            i = i + 1;
        }
        assert(tag_views(tags@).skip(i as int) =~= Seq::<TagView>::empty());
        base
    }
}

/// The value of a run of decimal digits.
pub open spec fn digits_value(d: Seq<char>) -> nat
    decreases d.len(),
{
    if d.len() == 0 {
        0
    } else {
        digits_value(d.drop_last()) * 10 + ((d.last() as u32) - ('0' as u32)) as nat
    }
}

/// Every character is an ASCII digit.
pub open spec fn all_digits(d: Seq<char>) -> bool {
    forall|i: int| 0 <= i < d.len() ==> '0' <= #[trigger] d[i] <= '9'
}

/// What `str::parse::<u32>` gives: an optional `+` followed by at least one
/// decimal digit and nothing else, with a value that fits in a `u32`.
pub open spec fn parse_u32_of(s: Seq<char>) -> Option<u32> {
    let d = if s.len() > 0 && s[0] == '+' { s.drop_first() } else { s };
    if d.len() > 0 && all_digits(d) && digits_value(d) <= u32::MAX {
        Some(digits_value(d) as u32)
    } else {
        None
    }
}

/// Parses a decimal `u32` as `str::parse::<u32>` does.
pub fn parse_u32(s: &Vec<char>) -> (res: Option<u32>)
    ensures
        res == parse_u32_of(s@),
{
    let start: usize = if s.len() > 0 && s[0] == '+' { 1 } else { 0 };
    let ghost d = if s@.len() > 0 && s@[0] == '+' { s@.drop_first() } else { s@ };
    assert(d =~= s@.skip(start as int));
    if start == s.len() {
        return None;
    }
    let mut value: u64 = 0;
    let mut i: usize = start;
    while i < s.len()
        invariant
            start <= i <= s@.len(),
            d == s@.skip(start as int),
            d == (if s@.len() > 0 && s@[0] == '+' { s@.drop_first() } else { s@ }),
            all_digits(s@.subrange(start as int, i as int)),
            value == digits_value(s@.subrange(start as int, i as int)),
            value <= u32::MAX,
        decreases s@.len() - i,
    {
        let c = s[i];
        assert(s@.subrange(start as int, i + 1).drop_last() =~= s@.subrange(start as int, i as int));
        if c < '0' || c > '9' {
            assert(d[i - start] == c);
            assert(!all_digits(d));
            return None;
        }
        let digit = (c as u32 - '0' as u32) as u64;
        let next = value * 10 + digit;
        assert(next == digits_value(s@.subrange(start as int, i + 1)));
        if next > 4294967295u64 {
            proof {
                lemma_digits_value_grows(d, i - start + 1);
                assert(d.take(i - start + 1) =~= s@.subrange(start as int, i + 1));
                assert(all_digits(d) ==> digits_value(d) > u32::MAX);
            }
            return None;
        }
        value = next;
        i = i + 1;
    }
    assert(s@.subrange(start as int, s@.len() as int) =~= d);
    Some(value as u32)
}

/// A longer run of digits is worth at least as much as its prefix.
proof fn lemma_digits_value_grows(d: Seq<char>, k: int)
    requires
        0 <= k <= d.len(),
    ensures
        all_digits(d) ==> digits_value(d.take(k)) <= digits_value(d),
    decreases d.len() - k,
{
    if k < d.len() {
        lemma_digits_value_grows(d, k + 1);
        assert(d.take(k + 1).drop_last() =~= d.take(k));
        if all_digits(d) {
            assert('0' <= d.take(k + 1).last() <= '9');
        }
    } else {
        assert(d.take(k) =~= d);
    }
}

/// The number that an ADR file name starts with: the part before the first
/// `-` (the whole name if there is none) parsed as a `u32`; only `.md` files count.
pub open spec fn adr_number_of(name: Seq<char>) -> Option<u32> {
    if ends_with(name, ".md"@) {
        let i = crate::flush::first_index_of(name, '-');
        parse_u32_of(if i < 0 { name } else { name.take(i) })
    } else {
        None
    }
}

/// The largest ADR number among the first `n` file names (0 when there is none).
pub open spec fn max_adr_number(names: Seq<Seq<char>>, n: int) -> u32
    decreases n,
{
    if n <= 0 {
        0
    } else {
        let prev = max_adr_number(names, n - 1);
        match adr_number_of(names[n - 1]) {
            Some(v) => if v > prev { v } else { prev },
            None => prev,
        }
    }
}

/// The number of the next ADR, given the file names in the `adrs` folder: one
/// more than the largest number an ADR file name starts with (1 when none does).
pub fn next_adr_number(names: &Vec<String>) -> (res: u32)
    requires
        max_adr_number(names.deep_view(), names@.len() as int) < u32::MAX,
    ensures
        res == max_adr_number(names.deep_view(), names@.len() as int) + 1,
{
    let ghost nv = names.deep_view();
    let mut max: u32 = 0;
    let mut i: usize = 0;
    while i < names.len()
        invariant
            i <= names@.len() == nv.len(),
            nv == names.deep_view(),
            max == max_adr_number(nv, i as int),
        decreases names@.len() - i,
    {
        let name = chars_of(names[i].as_str());
        assert(nv[i as int] == name@);
        if chars_ends_with(&name, &chars_of(".md")) {
            let prefix = match crate::flush::find_first_char(&name, '-') {
                Some(j) => crate::paths::slice_chars(&name, 0, j),
                None => crate::paths::slice_chars(&name, 0, name.len()),
            };
            proof {
                let j = crate::flush::first_index_of(name@, '-');
                if j < 0 {
                    assert(prefix@ =~= name@);
                } else {
                    assert(prefix@ =~= name@.take(j));
                }
            }
            if let Some(v) = parse_u32(&prefix) {
                if v > max {
                    max = v;
                }
            }
        }
        i = i + 1;
    }
    max + 1
}


/// Creation and reassignment agree on the backlog: a label that sends a new
/// backlog item to a folder names a backlog category, and the folder is that
/// category's; and every category's folder is reached by some label, so an item
/// can be created where reassignment to that category would put it.
pub proof fn law_backlog_folders_agree(label: Seq<char>, c: BacklogCategory)
    ensures
        backlog_subdir(label) matches Some(d) ==> (category_named(label) matches Some(k) && d == category_directory(k)),
        exists|l: Seq<char>| #[trigger] backlog_subdir(l) == Some(category_directory(c)),
{
    reveal_strlit("bug");
    reveal_strlit("feature");
    reveal_strlit("tech-debt");
    reveal_strlit("techdebt");
    reveal_strlit("tech_debt");
    assert("bug"@.len() == 3 && "feature"@.len() == 7 && "tech-debt"@.len() == 9 && "techdebt"@.len() == 8);
    assert("tech-debt"@[4] != "tech_debt"@[4]);
    match c {
        BacklogCategory::Bug => { assert(backlog_subdir("bug"@) == Some(category_directory(c))); },
        BacklogCategory::Feature => { assert(backlog_subdir("feature"@) == Some(category_directory(c))); },
        BacklogCategory::TechDebt => { assert(backlog_subdir("tech-debt"@) == Some(category_directory(c))); },
    }
}

} // verus!
