//! The terminal application: what input and updates do to the screen and ask of the backend.

use vstd::prelude::*;

use super::input::{Event, EventView, KeyCode, KeyEvent, KeyEventKind, KeyModifiers, MouseEventKind};
use super::session::{
    ChatProjection, ClientSessionError, ProjectionView, SessionUpdate, WorkspaceUpdate,
};
use super::ui::editor::{editor_text, EditorOutcome, EditorOutcomeView};
use super::ui::fuzzy::{fuzzy_score, fuzzy_subsequence_score, normalize_fuzzy_text, normalized};
use super::ui::session_browser::{ActionView, BrowserAction, BrowserMode, BrowserView, LayerView};
use super::ui::state::{PopupKind, UiState, UiView};
use super::ui::widgets::{
    menu_item, sanitize_line, sanitized_line, ItemView, MenuItem, MenuKind, MenuView,
};
use crate::session::{
    label_of, reasoning_name, reasoning_of, JobSnapshotDto, JobState, ModelCatalogState,
    ModelInfoDto, ReasoningLevel, SessionEvent, SessionId, SessionListScope, SessionSummary,
    SessionTitle, MAX_TITLE_CHARACTERS,
};
use crate::snapshot::{
    duplicate_bytes, duplicate_levels, CatalogView, Duplicate, JobView, ModelView,
};
use crate::text::{
    after_prefix, chars_of, graphemes, is_blank, is_blank_text, is_whitespace, is_whitespace_char, same_text,
    string_from, strip_prefix, trim, trim_text,
};

verus! {

/// What a command of the prompt does.
#[derive(Clone, Copy, Debug, PartialEq, Eq, Structural)]
pub enum CommandAction {
    Quit,
    Cancel,
    Model,
    Effort,
    Processes,
    Kill,
    New,
    Sessions,
}

/// The number of commands.
pub const COMMAND_COUNT: usize = 8;

/// A command: its name, its description and what it does.
pub open spec fn command(index: int) -> (Seq<char>, Seq<char>, CommandAction) {
    if index == 0 {
        ("/quit"@, "Exit moh"@, CommandAction::Quit)
    } else if index == 1 {
        ("/cancel"@, "Cancel the active request"@, CommandAction::Cancel)
    } else if index == 2 {
        ("/model"@, "Change the active model"@, CommandAction::Model)
    } else if index == 3 {
        ("/effort"@, "Change the reasoning effort"@, CommandAction::Effort)
    } else if index == 4 {
        ("/ps"@, "Show running background processes"@, CommandAction::Processes)
    } else if index == 5 {
        ("/kill"@, "Terminate a background process"@, CommandAction::Kill)
    } else if index == 6 {
        ("/new"@, "Open a new ephemeral chat"@, CommandAction::New)
    } else {
        ("/sessions"@, "Browse saved sessions"@, CommandAction::Sessions)
    }
}

fn command_at(index: usize) -> (found: (&'static str, &'static str, CommandAction))
    ensures
        (found.0@, found.1@, found.2) == command(index as int),
{
    match index {
        0 => ("/quit", "Exit moh", CommandAction::Quit),
        1 => ("/cancel", "Cancel the active request", CommandAction::Cancel),
        2 => ("/model", "Change the active model", CommandAction::Model),
        3 => ("/effort", "Change the reasoning effort", CommandAction::Effort),
        4 => ("/ps", "Show running background processes", CommandAction::Processes),
        5 => ("/kill", "Terminate a background process", CommandAction::Kill),
        6 => ("/new", "Open a new ephemeral chat", CommandAction::New),
        _ => ("/sessions", "Browse saved sessions", CommandAction::Sessions),
    }
}

/// Something that the user asked for. `T` is the type of text: `String` in code, `Seq<char>` in
/// contracts.
#[derive(Debug)]
pub enum AppAction<T> {
    Nothing,
    Submit(T),
    Cancel,
    OpenHelp,
    ToggleSidebar,
    OpenModelSelector,
    OpenProcessSelector,
    PrepareKill(T),
    SelectModel(T),
    ModelNotFound(T),
    OpenEffortSelector,
    SelectEffort(ReasoningLevel),
    EffortNotFound(T),
    CycleEffort,
    Kill(T),
    KillUsage,
    NewDraft,
    NewUsage,
    OpenSessionBrowser,
    SwitchSession(SessionId),
    RenameSession { session_id: SessionId, title: T },
    DeleteSession(SessionId),
    Exit,
}

impl DeepView for AppAction<String> {
    type V = AppAction<Seq<char>>;

    open spec fn deep_view(&self) -> AppAction<Seq<char>> {
        match self {
            AppAction::Nothing => AppAction::Nothing,
            AppAction::Submit(text) => AppAction::Submit(text@),
            AppAction::Cancel => AppAction::Cancel,
            AppAction::OpenHelp => AppAction::OpenHelp,
            AppAction::ToggleSidebar => AppAction::ToggleSidebar,
            AppAction::OpenModelSelector => AppAction::OpenModelSelector,
            AppAction::OpenProcessSelector => AppAction::OpenProcessSelector,
            AppAction::PrepareKill(job) => AppAction::PrepareKill(job@),
            AppAction::SelectModel(model) => AppAction::SelectModel(model@),
            AppAction::ModelNotFound(query) => AppAction::ModelNotFound(query@),
            AppAction::OpenEffortSelector => AppAction::OpenEffortSelector,
            AppAction::SelectEffort(level) => AppAction::SelectEffort(*level),
            AppAction::EffortNotFound(query) => AppAction::EffortNotFound(query@),
            AppAction::CycleEffort => AppAction::CycleEffort,
            AppAction::Kill(job) => AppAction::Kill(job@),
            AppAction::KillUsage => AppAction::KillUsage,
            AppAction::NewDraft => AppAction::NewDraft,
            AppAction::NewUsage => AppAction::NewUsage,
            AppAction::OpenSessionBrowser => AppAction::OpenSessionBrowser,
            AppAction::SwitchSession(id) => AppAction::SwitchSession(*id),
            AppAction::RenameSession { session_id, title } => AppAction::RenameSession {
                session_id: *session_id,
                title: title@,
            },
            AppAction::DeleteSession(id) => AppAction::DeleteSession(*id),
            AppAction::Exit => AppAction::Exit,
        }
    }
}

/// How well a normalized query finds a model by identifier or name.
pub open spec fn model_score(query: Seq<char>, model: ModelView) -> Option<usize> {
    let by_id = fuzzy_score(query, normalized(model.id));
    let by_name = fuzzy_score(query, normalized(model.display_name));
    match (by_id, by_name) {
        (Some(id), Some(name)) => Some(
            if id > name {
                id
            } else {
                name
            },
        ),
        (Some(id), None) => Some(id),
        (None, _) => by_name,
    }
}

fn score_of_model(query: &str, model: &ModelInfoDto) -> (score: Option<usize>)
    ensures
        score == model_score(query@, model.deep_view()),
{
    let id = normalize_fuzzy_text(&model.id);
    let name = normalize_fuzzy_text(&model.display_name);
    let by_id = fuzzy_subsequence_score(query, &id);
    let by_name = fuzzy_subsequence_score(query, &name);
    match (by_id, by_name) {
        (Some(id), Some(name)) => Some(if id > name { id } else { name }),
        (Some(id), None) => Some(id),
        (None, name) => name,
    }
}

/// The last of the models that a normalized query finds best.
pub open spec fn best_model(query: Seq<char>, models: Seq<ModelView>) -> Option<ModelView>
    decreases models.len(),
{
    if models.len() == 0 {
        None
    } else {
        let before = best_model(query, models.drop_last());
        match (model_score(query, models.last()), before) {
            (None, _) => before,
            (Some(_), None) => Some(models.last()),
            (Some(score), Some(best)) => if score >= model_score(query, best)->0 {
                Some(models.last())
            } else {
                before
            },
        }
    }
}

/// The model that a query means.
pub open spec fn meant_model(query: Seq<char>, models: Seq<ModelView>) -> Option<ModelView> {
    if normalized(query).len() == 0 {
        None
    } else {
        best_model(normalized(query), models)
    }
}

/// The meant model scores at least as high as every other one.
pub proof fn lemma_meant_model_scores_highest(query: Seq<char>, models: Seq<ModelView>, index: int)
    requires
        0 <= index < models.len(),
        normalized(query).len() > 0,
        model_score(normalized(query), models[index]) is Some,
    ensures
        meant_model(query, models) is Some,
        model_score(normalized(query), meant_model(query, models)->0) is Some,
        model_score(normalized(query), models[index])->0 <= model_score(
            normalized(query),
            meant_model(query, models)->0,
        )->0,
    decreases models.len(),
{
    if index < models.len() - 1 {
        lemma_meant_model_scores_highest(query, models.drop_last(), index);
    } else {
        lemma_best_model_has_score(normalized(query), models.drop_last());
    }
}

proof fn lemma_best_model_has_score(query: Seq<char>, models: Seq<ModelView>)
    ensures
        best_model(query, models) is Some ==> model_score(query, best_model(query, models)->0) is Some,
    decreases models.len(),
{
    if models.len() > 0 {
        lemma_best_model_has_score(query, models.drop_last());
    }
}

/// Finds the model that a query means.
pub fn best_model_match<'a>(query: &str, models: &'a Vec<ModelInfoDto>) -> (model: Option<
    &'a ModelInfoDto,
>)
    ensures
        match model {
            Some(model) => meant_model(query@, models.deep_view()) == Some(model.deep_view()),
            None => meant_model(query@, models.deep_view()) is None,
        },
{
    let query = normalize_fuzzy_text(query);
    if query.as_str().is_empty() {
        return None;
    }
    let ghost all = models.deep_view();
    let mut best: Option<usize> = None;
    let mut best_score: usize = 0;
    let mut index: usize = 0;
    while index < models.len()
        invariant
            index <= models@.len(),
            all == models.deep_view(),
            match best {
                Some(place) => place < models@.len() && best_model(
                    query@,
                    all.subrange(0, index as int),
                ) == Some(all[place as int]) && model_score(query@, all[place as int]) == Some(
                    best_score,
                ),
                None => best_model(query@, all.subrange(0, index as int)) is None,
            },
        decreases models@.len() - index,
    {
        proof {
            let seen = all.subrange(0, index + 1);
            assert(seen.drop_last() =~= all.subrange(0, index as int));
            assert(seen.last() == models@[index as int].deep_view());
        }
        if let Some(score) = score_of_model(&query, &models[index]) {
            if best.is_none() || score >= best_score {
                best = Some(index);
                best_score = score;
            }
        }
        index += 1;
    }
    assert(all.subrange(0, index as int) =~= all);
    match best {
        Some(place) => Some(&models[place]),
        None => None,
    }
}

/// A list of scored models with one put behind those that score as high.
pub open spec fn model_placed(list: Seq<(usize, ModelView)>, item: (usize, ModelView)) -> Seq<
    (usize, ModelView),
>
    decreases list.len(),
{
    if list.len() > 0 && list.last().0 < item.0 {
        model_placed(list.drop_last(), item).push(list.last())
    } else {
        list.push(item)
    }
}

/// The models that a normalized query finds, with their scores, best first.
pub open spec fn scored_models(query: Seq<char>, models: Seq<ModelView>) -> Seq<(usize, ModelView)>
    decreases models.len(),
{
    if models.len() == 0 {
        Seq::empty()
    } else {
        let before = scored_models(query, models.drop_last());
        match model_score(query, models.last()) {
            Some(score) => model_placed(before, (score, models.last())),
            None => before,
        }
    }
}

/// The models that a query finds, best first; an empty query finds all.
pub open spec fn found_models(query: Seq<char>, models: Seq<ModelView>) -> Seq<ModelView> {
    if normalized(query).len() == 0 {
        models
    } else {
        let scored = scored_models(normalized(query), models);
        Seq::new(scored.len(), |i: int| scored[i].1)
    }
}

/// The scores of found models never rise.
pub proof fn lemma_found_models_are_sorted(query: Seq<char>, models: Seq<ModelView>)
    ensures
        forall|i: int, j: int|
            0 <= i < j < scored_models(query, models).len() ==> (#[trigger] scored_models(
                query,
                models,
            )[j]).0 <= (#[trigger] scored_models(query, models)[i]).0,
    decreases models.len(),
{
    if models.len() > 0 {
        lemma_found_models_are_sorted(query, models.drop_last());
        if let Some(score) = model_score(query, models.last()) {
            lemma_model_placed_is_sorted(
                scored_models(query, models.drop_last()),
                (score, models.last()),
            );
        }
    }
}

proof fn lemma_model_placed_is_sorted(list: Seq<(usize, ModelView)>, item: (usize, ModelView))
    requires
        forall|i: int, j: int|
            0 <= i < j < list.len() ==> (#[trigger] list[j]).0 <= (#[trigger] list[i]).0,
    ensures
        forall|i: int, j: int|
            0 <= i < j < model_placed(list, item).len() ==> (#[trigger] model_placed(
                list,
                item,
            )[j]).0 <= (#[trigger] model_placed(list, item)[i]).0,
        forall|i: int|
            0 <= i < model_placed(list, item).len() ==> (#[trigger] model_placed(list, item)[i]).0
                >= if list.len() > 0 && list.last().0 < item.0 {
                list.last().0
            } else {
                item.0
            },
    decreases list.len(),
{
    let placed = model_placed(list, item);
    if list.len() > 0 && list.last().0 < item.0 {
        let before = list.drop_last();
        assert forall|i: int, j: int| 0 <= i < j < before.len() implies (#[trigger] before[j]).0
            <= (#[trigger] before[i]).0 by {
            assert(before[j] == list[j] && before[i] == list[i]);
        }
        lemma_model_placed_is_sorted(before, item);
        let shorter = model_placed(before, item);
        if before.len() > 0 {
            assert(list[list.len() - 1].0 <= list[list.len() - 2].0);
        }
        assert forall|i: int, j: int| 0 <= i < j < placed.len() implies (#[trigger] placed[j]).0
            <= (#[trigger] placed[i]).0 by {
            assert(placed[i] == shorter[i]);
            if j < shorter.len() {
                assert(placed[j] == shorter[j]);
            }
        }
        assert forall|i: int| 0 <= i < placed.len() implies (#[trigger] placed[i]).0
            >= list.last().0 by {
            if i < shorter.len() {
                assert(placed[i] == shorter[i]);
            }
        }
    } else {
        assert forall|i: int, j: int| 0 <= i < j < placed.len() implies (#[trigger] placed[j]).0
            <= (#[trigger] placed[i]).0 by {
            assert(placed[i] == list[i]);
            if j < list.len() {
                assert(placed[j] == list[j]);
            } else if i < list.len() - 1 {
                assert(list[list.len() - 1].0 <= list[i].0);
            }
        }
        assert forall|i: int| 0 <= i < placed.len() implies (#[trigger] placed[i]).0 >= item.0 by {
            if i < list.len() - 1 {
                assert(placed[i] == list[i]);
                assert(list[list.len() - 1].0 <= list[i].0);
            }
        }
    }
}

/// Finds the models of a query, best first.
pub fn matching_models<'a>(query: &str, models: &'a Vec<ModelInfoDto>) -> (found: Vec<
    &'a ModelInfoDto,
>)
    ensures
        found.deep_view() == found_models(query@, models.deep_view()),
{
    let query = normalize_fuzzy_text(query);
    let ghost all = models.deep_view();
    let mut found: Vec<&'a ModelInfoDto> = Vec::new();
    let mut index: usize = 0;
    if query.as_str().is_empty() {
        while index < models.len()
            invariant
                index <= models@.len(),
                found@.len() == index,
                forall|i: int| 0 <= i < index ==> (#[trigger] found@[i]) == models@[i],
            decreases models@.len() - index,
        {
            found.push(&models[index]);
            index += 1;
        }
        assert(found.deep_view() =~= all);
        return found;
    }
    let mut scores: Vec<usize> = Vec::new();
    let ghost mut scored: Seq<(usize, ModelView)> = Seq::empty();
    while index < models.len()
        invariant
            index <= models@.len(),
            all == models.deep_view(),
            scored == scored_models(query@, all.subrange(0, index as int)),
            scores@.len() == found@.len() == scored.len(),
            forall|i: int|
                0 <= i < scored.len() ==> #[trigger] scored[i] == (
                    scores@[i],
                    found@[i].deep_view(),
                ),
        decreases models@.len() - index,
    {
        proof {
            let seen = all.subrange(0, index + 1);
            assert(seen.drop_last() =~= all.subrange(0, index as int));
            assert(seen.last() == models@[index as int].deep_view());
        }
        if let Some(score) = score_of_model(&query, &models[index]) {
            let ghost item = (score, models@[index as int].deep_view());
            let mut place: usize = scores.len();
            assert(scored.subrange(0, place as int) =~= scored);
            assert(model_placed(scored, item) =~= model_placed(scored, item) + scored.subrange(
                place as int,
                place as int,
            ));
            while place > 0 && scores[place - 1] < score
                invariant
                    place <= scores@.len() == scored.len(),
                    scores@.len() == found@.len(),
                    item.0 == score,
                    forall|i: int| 0 <= i < scored.len() ==> (#[trigger] scored[i]).0 == scores@[i],
                    model_placed(scored, item) == model_placed(
                        scored.subrange(0, place as int),
                        item,
                    ) + scored.subrange(place as int, scored.len() as int),
                decreases place,
            {
                proof {
                    let head = scored.subrange(0, place as int);
                    assert(head.last() == scored[place - 1]);
                    assert(head.drop_last() =~= scored.subrange(0, place - 1));
                    assert(model_placed(head, item) + scored.subrange(
                        place as int,
                        scored.len() as int,
                    ) =~= model_placed(scored.subrange(0, place - 1), item) + scored.subrange(
                        place - 1,
                        scored.len() as int,
                    ));
                }
                place -= 1;
            }
            proof {
                let head = scored.subrange(0, place as int);
                if place > 0 {
                    assert(head.last() == scored[place - 1]);
                }
                assert(model_placed(head, item) == head.push(item));
                assert(model_placed(scored, item) =~= scored.insert(place as int, item));
                scored = scored.insert(place as int, item);
            }
            scores.insert(place, score);
            found.insert(place, &models[index]);
        }
        index += 1;
    }
    assert(all.subrange(0, index as int) =~= all);
    assert(found.deep_view() =~= Seq::new(scored.len(), |i: int| scored[i].1));
    found
}

/// The models of a catalog, none while it is not ready.
pub open spec fn catalog_models(catalog: CatalogView) -> Seq<ModelView> {
    match catalog {
        CatalogView::Ready(models) => models,
        _ => Seq::empty(),
    }
}

/// The reasoning levels of the first model with an identifier.
pub open spec fn model_efforts(models: Seq<ModelView>, id: Seq<char>) -> Seq<ReasoningLevel>
    decreases models.len(),
{
    if models.len() == 0 {
        Seq::empty()
    } else if models[0].id == id {
        models[0].reasoning_efforts
    } else {
        model_efforts(models.drop_first(), id)
    }
}

/// The reasoning levels that the active model supports.
pub open spec fn efforts(projection: ProjectionView) -> Seq<ReasoningLevel> {
    model_efforts(catalog_models(projection.catalog()), projection.settings().model)
}

/// The reasoning levels that the active model of a chat supports.
pub fn available_efforts(projection: &ChatProjection) -> (levels: Vec<ReasoningLevel>)
    ensures
        levels@ == efforts(projection.deep_view()),
{
    let wanted = &projection.settings().model;
    match projection.catalog() {
        ModelCatalogState::Ready(models) => {
            let ghost all = models.deep_view();
            let mut index: usize = 0;
            assert(all.skip(0) =~= all);
            while index < models.len()
                invariant
                    index <= models@.len(),
                    all == models.deep_view(),
                    efforts(projection.deep_view()) == model_efforts(all, wanted@),
                    model_efforts(all, wanted@) == model_efforts(all.skip(index as int), wanted@),
                decreases models@.len() - index,
            {
                proof {
                    let rest = all.skip(index as int);
                    assert(rest[0] == models@[index as int].deep_view());
                    assert(rest.drop_first() =~= all.skip(index + 1));
                }
                if same_text(&models[index].id, wanted) {
                    return duplicate_levels(&models[index].reasoning_efforts);
                }
                index += 1;
            }
            Vec::new()
        },
        _ => Vec::new(),
    }
}

fn contains_level(levels: &Vec<ReasoningLevel>, level: ReasoningLevel) -> (found: bool)
    ensures
        found == levels@.contains(level),
{
    let mut index: usize = 0;
    while index < levels.len()
        invariant
            index <= levels@.len(),
            forall|i: int| 0 <= i < index ==> levels@[i] != level,
        decreases levels@.len() - index,
    {
        if levels[index] == level {
            return true;
        }
        index += 1;
    }
    false
}

/// The supported reasoning level of a name.
pub open spec fn meant_effort(projection: ProjectionView, name: Seq<char>) -> Option<
    ReasoningLevel,
> {
    match reasoning_of(name) {
        Some(level) => if efforts(projection).contains(level) {
            Some(level)
        } else {
            None
        },
        None => None,
    }
}

fn effort_of(projection: &ChatProjection, name: &str) -> (level: Option<ReasoningLevel>)
    ensures
        level == meant_effort(projection.deep_view(), name@),
{
    match ReasoningLevel::parse(name) {
        Some(level) => {
            let levels = available_efforts(projection);
            if contains_level(&levels, level) {
                Some(level)
            } else {
                None
            }
        },
        None => None,
    }
}

/// The action of a query for a model.
pub open spec fn model_action(
    projection: ProjectionView,
    query: Seq<char>,
) -> AppAction<Seq<char>> {
    match meant_model(query, catalog_models(projection.catalog())) {
        Some(model) => AppAction::SelectModel(model.id),
        None => AppAction::ModelNotFound(query),
    }
}

fn action_of_model(projection: &ChatProjection, query: String) -> (action: AppAction<String>)
    ensures
        action.deep_view() == model_action(projection.deep_view(), query@),
{
    let none: Vec<ModelInfoDto> = Vec::new();
    assert(none.deep_view() =~= Seq::empty());
    let models = match projection.catalog() {
        ModelCatalogState::Ready(models) => models,
        _ => &none,
    };
    match best_model_match(&query, models) {
        Some(model) => AppAction::SelectModel(model.id.clone()),
        None => AppAction::ModelNotFound(query),
    }
}

/// The action of a query for a reasoning level, which reports `shown` where none is meant.
pub open spec fn effort_action(
    projection: ProjectionView,
    name: Seq<char>,
    shown: Seq<char>,
) -> AppAction<Seq<char>> {
    match meant_effort(projection, name) {
        Some(level) => AppAction::SelectEffort(level),
        None => AppAction::EffortNotFound(shown),
    }
}

/// The first word of a text that does not begin with white space.
pub open spec fn first_word(text: Seq<char>) -> Seq<char>
    decreases text.len(),
{
    if text.len() == 0 || is_whitespace(text[0]) {
        Seq::empty()
    } else {
        seq![text[0]] + first_word(text.drop_first())
    }
}

proof fn lemma_first_word(text: Seq<char>, end: int)
    requires
        0 <= end <= text.len(),
        forall|i: int| 0 <= i < end ==> !is_whitespace(#[trigger] text[i]),
        end < text.len() ==> is_whitespace(text[end]),
    ensures
        first_word(text) == text.take(end),
    decreases text.len(),
{
    if end == 0 {
        assert(text.take(0) =~= Seq::empty());
    } else {
        let rest = text.drop_first();
        assert(!is_whitespace(text[0]));
        assert forall|i: int| 0 <= i < end - 1 implies !is_whitespace(#[trigger] rest[i]) by {
            assert(rest[i] == text[i + 1]);
        }
        lemma_first_word(rest, end - 1);
        assert(seq![text[0]] + rest.take(end - 1) =~= text.take(end));
    }
}

fn first_word_of(text: &str) -> (word: String)
    ensures
        word@ == first_word(text@),
{
    let characters = chars_of(text);
    let mut end: usize = 0;
    while end < characters.len() && !is_whitespace_char(characters[end])
        invariant
            end <= characters@.len(),
            forall|i: int| 0 <= i < end ==> !is_whitespace(#[trigger] characters@[i]),
        decreases characters@.len() - end,
    {
        end += 1;
    }
    proof {
        lemma_first_word(characters@, end as int);
        assert(characters@.subrange(0, end as int) =~= characters@.take(end as int));
    }
    string_from(&characters, 0, end)
}

/// What the prompt text means where no selector is open.
pub open spec fn typed_action(projection: ProjectionView, text: Seq<char>) -> AppAction<Seq<char>> {
    let trimmed = trim(text);
    if trimmed == "/quit"@ || trimmed == "/exit"@ {
        AppAction::Exit
    } else if trimmed == "/cancel"@ {
        AppAction::Cancel
    } else if trimmed == "/new"@ {
        AppAction::NewDraft
    } else if first_word(trimmed) == "/new"@ {
        AppAction::NewUsage
    } else if trimmed == "/sessions"@ {
        AppAction::OpenSessionBrowser
    } else if trimmed == "/model"@ {
        AppAction::OpenModelSelector
    } else if after_prefix(trimmed, "/model "@) is Some {
        model_action(projection, trim(after_prefix(trimmed, "/model "@)->0))
    } else if trimmed == "/effort"@ {
        AppAction::OpenEffortSelector
    } else if after_prefix(trimmed, "/effort "@) is Some {
        let query = trim(after_prefix(trimmed, "/effort "@)->0);
        effort_action(projection, query, query)
    } else if trimmed == "/ps"@ {
        AppAction::OpenProcessSelector
    } else if trimmed == "/kill"@ {
        AppAction::KillUsage
    } else if after_prefix(trimmed, "/kill "@) is Some {
        AppAction::Kill(trim(after_prefix(trimmed, "/kill "@)->0))
    } else {
        AppAction::Submit(text)
    }
}

/// What a submitted text means.
pub open spec fn submitted_action(
    menu: Option<MenuKind>,
    projection: ProjectionView,
    text: Seq<char>,
) -> AppAction<Seq<char>> {
    match menu {
        Some(MenuKind::Models) => model_action(projection, text),
        Some(MenuKind::Efforts) => effort_action(projection, trim(text), text),
        Some(MenuKind::Processes) => AppAction::Nothing,
        _ => typed_action(projection, text),
    }
}

/// Decides what a submitted text means.
pub fn resolve_submission(ui: &UiState, projection: &ChatProjection, text: String) -> (action:
    AppAction<String>)
    ensures
        action.deep_view() == submitted_action(
            ui.state().menu.kind,
            projection.deep_view(),
            text@,
        ),
{
    match ui.menu().kind() {
        Some(MenuKind::Models) => {
            return action_of_model(projection, text);
        },
        Some(MenuKind::Efforts) => {
            let name = trim_text(&text);
            return match effort_of(projection, &name) {
                Some(level) => AppAction::SelectEffort(level),
                None => AppAction::EffortNotFound(text),
            };
        },
        Some(MenuKind::Processes) => {
            return AppAction::Nothing;
        },
        _ => {},
    }
    let trimmed = trim_text(&text);
    if same_text(&trimmed, "/quit") || same_text(&trimmed, "/exit") {
        return AppAction::Exit;
    }
    if same_text(&trimmed, "/cancel") {
        return AppAction::Cancel;
    }
    if same_text(&trimmed, "/new") {
        return AppAction::NewDraft;
    }
    let word = first_word_of(&trimmed);
    if same_text(&word, "/new") {
        return AppAction::NewUsage;
    }
    if same_text(&trimmed, "/sessions") {
        return AppAction::OpenSessionBrowser;
    }
    if same_text(&trimmed, "/model") {
        return AppAction::OpenModelSelector;
    }
    if let Some(query) = strip_prefix(&trimmed, "/model ") {
        let query = trim_text(&query);
        return action_of_model(projection, query);
    }
    if same_text(&trimmed, "/effort") {
        return AppAction::OpenEffortSelector;
    }
    if let Some(query) = strip_prefix(&trimmed, "/effort ") {
        let query = trim_text(&query);
        return match effort_of(projection, &query) {
            Some(level) => AppAction::SelectEffort(level),
            None => AppAction::EffortNotFound(query),
        };
    }
    if same_text(&trimmed, "/ps") {
        return AppAction::OpenProcessSelector;
    }
    if same_text(&trimmed, "/kill") {
        return AppAction::KillUsage;
    }
    if let Some(job) = strip_prefix(&trimmed, "/kill ") {
        return AppAction::Kill(trim_text(&job));
    }
    AppAction::Submit(text)
}

/// The menu lines of some models.
pub open spec fn model_items(models: Seq<ModelView>) -> Seq<ItemView> {
    Seq::new(models.len(), |i: int| menu_item(models[i].id, models[i].description))
}

/// The menu lines of the reasoning levels that a normalized query finds.
pub open spec fn effort_items(levels: Seq<ReasoningLevel>, query: Seq<char>) -> Seq<ItemView>
    decreases levels.len(),
{
    if levels.len() == 0 {
        Seq::empty()
    } else {
        let before = effort_items(levels.drop_last(), query);
        let name = reasoning_name(levels.last());
        if query.len() == 0 || fuzzy_score(query, name) is Some {
            before.push(menu_item(name, "Supported by the active model"@))
        } else {
            before
        }
    }
}

/// The menu lines of the running jobs.
pub open spec fn job_items(jobs: Seq<JobView>) -> Seq<ItemView>
    decreases jobs.len(),
{
    if jobs.len() == 0 {
        Seq::empty()
    } else {
        let before = job_items(jobs.drop_last());
        if jobs.last().state == JobState::Running {
            before.push(menu_item(jobs.last().id, jobs.last().title))
        } else {
            before
        }
    }
}

/// The name under which a command is offered: `/quit` is `/exit` once `/e` is typed.
pub open spec fn offered_name(index: int, value: Seq<char>) -> Seq<char> {
    if command(index).2 == CommandAction::Quit && "/e"@.is_prefix_of(value) {
        "/exit"@
    } else {
        command(index).0
    }
}

/// The menu lines of the first commands whose names begin with a text.
pub open spec fn command_items(value: Seq<char>, count: int) -> Seq<ItemView>
    decreases count,
{
    if count <= 0 {
        Seq::empty()
    } else {
        let before = command_items(value, count - 1);
        if value.is_prefix_of(offered_name(count - 1, value)) {
            before.push(menu_item(offered_name(count - 1, value), command(count - 1).1))
        } else {
            before
        }
    }
}

/// A text that may be the beginning of a command.
pub open spec fn is_command_start(value: Seq<char>) -> bool {
    &&& value.len() > 0
    &&& value[0] == '/'
    &&& forall|i: int| 0 <= i < value.len() ==> !is_whitespace(#[trigger] value[i])
}

/// The jobs of a chat.
pub open spec fn chat_jobs(projection: ProjectionView) -> Seq<JobView> {
    match projection {
        ProjectionView::Draft(_) => Seq::empty(),
        ProjectionView::Session(snapshot) => snapshot.jobs,
    }
}

/// The menu that fits the prompt and the chat.
#[verifier::opaque]
pub open spec fn fitting_menu(
    kind: Option<MenuKind>,
    value: Seq<char>,
    projection: ProjectionView,
) -> MenuView {
    match kind {
        Some(MenuKind::Models) => MenuView::opened(
            MenuKind::Models,
            model_items(found_models(value, catalog_models(projection.catalog()))),
        ),
        Some(MenuKind::Efforts) => MenuView::opened(
            MenuKind::Efforts,
            effort_items(efforts(projection), normalized(value)),
        ),
        Some(MenuKind::Processes) => MenuView::opened(
            MenuKind::Processes,
            job_items(chat_jobs(projection)),
        ),
        _ => {
            let items = command_items(value, COMMAND_COUNT as int);
            if is_command_start(value) && items.len() > 0 {
                MenuView::opened(MenuKind::Commands, items)
            } else {
                MenuView::closed_menu()
            }
        },
    }
}

/// The screen with its menu fitted to the prompt and the chat.
pub open spec fn with_fitting_menu(ui: UiView, projection: ProjectionView) -> UiView {
    UiView {
        menu: fitting_menu(ui.menu.kind, ui.editor.value, projection),
        ..ui
    }.redrawn()
}

fn push_item(items: &mut Vec<MenuItem>, item: MenuItem)
    ensures
        final(items).deep_view() == old(items).deep_view().push(item.deep_view()),
{
    items.push(item);
    assert(items.deep_view() =~= old(items).deep_view().push(item.deep_view()));
}

fn items_of_models(value: &str, projection: &ChatProjection) -> (items: Vec<MenuItem>)
    ensures
        items.deep_view() == model_items(
            found_models(value@, catalog_models(projection.deep_view().catalog())),
        ),
{
    let none: Vec<ModelInfoDto> = Vec::new();
    assert(none.deep_view() =~= Seq::empty());
    let models = match projection.catalog() {
        ModelCatalogState::Ready(models) => models,
        _ => &none,
    };
    let found = matching_models(value, models);
    let ghost named = found.deep_view();
    let mut items: Vec<MenuItem> = Vec::new();
    let mut index: usize = 0;
    assert(items.deep_view() =~= model_items(named.subrange(0, 0)));
    while index < found.len()
        invariant
            index <= found@.len(),
            named == found.deep_view(),
            items.deep_view() == model_items(named.subrange(0, index as int)),
        decreases found@.len() - index,
    {
        push_item(&mut items, MenuItem::new(&found[index].id, &found[index].description));
        index += 1;
        assert(named[index - 1] == found@[index - 1].deep_view());
        assert(items.deep_view() =~= model_items(named.subrange(0, index as int)));
    }
    assert(named.subrange(0, index as int) =~= named);
    items
}

fn items_of_efforts(value: &str, projection: &ChatProjection) -> (items: Vec<MenuItem>)
    ensures
        items.deep_view() == effort_items(efforts(projection.deep_view()), normalized(value@)),
{
    let query = normalize_fuzzy_text(value);
    let levels = available_efforts(projection);
    let mut items: Vec<MenuItem> = Vec::new();
    let mut index: usize = 0;
    assert(items.deep_view() =~= effort_items(levels@.subrange(0, 0), query@));
    while index < levels.len()
        invariant
            index <= levels@.len(),
            items.deep_view() == effort_items(levels@.subrange(0, index as int), query@),
        decreases levels@.len() - index,
    {
        proof {
            let seen = levels@.subrange(0, index + 1);
            assert(seen.drop_last() =~= levels@.subrange(0, index as int));
            assert(seen.last() == levels@[index as int]);
        }
        let name = levels[index].as_str();
        if query.as_str().is_empty() || fuzzy_subsequence_score(&query, name).is_some() {
            push_item(&mut items, MenuItem::new(name, "Supported by the active model"));
        }
        index += 1;
    }
    assert(levels@.subrange(0, index as int) =~= levels@);
    items
}

fn items_of_jobs(jobs: &Vec<JobSnapshotDto>) -> (items: Vec<MenuItem>)
    ensures
        items.deep_view() == job_items(jobs.deep_view()),
{
    let ghost all = jobs.deep_view();
    let mut items: Vec<MenuItem> = Vec::new();
    let mut index: usize = 0;
    assert(items.deep_view() =~= job_items(all.subrange(0, 0)));
    while index < jobs.len()
        invariant
            index <= jobs@.len(),
            all == jobs.deep_view(),
            items.deep_view() == job_items(all.subrange(0, index as int)),
        decreases jobs@.len() - index,
    {
        proof {
            let seen = all.subrange(0, index + 1);
            assert(seen.drop_last() =~= all.subrange(0, index as int));
            assert(seen.last() == jobs@[index as int].deep_view());
        }
        if jobs[index].state == JobState::Running {
            push_item(&mut items, MenuItem::new(&jobs[index].id, &jobs[index].title));
        }
        index += 1;
    }
    assert(all.subrange(0, index as int) =~= all);
    items
}

fn items_of_commands(value: &str) -> (items: Vec<MenuItem>)
    ensures
        items.deep_view() == command_items(value@, COMMAND_COUNT as int),
{
    let exits = strip_prefix(value, "/e").is_some();
    let mut items: Vec<MenuItem> = Vec::new();
    let mut index: usize = 0;
    assert(items.deep_view() =~= command_items(value@, 0));
    while index < COMMAND_COUNT
        invariant
            index <= COMMAND_COUNT,
            exits == "/e"@.is_prefix_of(value@),
            items.deep_view() == command_items(value@, index as int),
        decreases COMMAND_COUNT - index,
    {
        let (name, description, action) = command_at(index);
        let name = if action == CommandAction::Quit && exits { "/exit" } else { name };
        if strip_prefix(name, value).is_some() {
            push_item(&mut items, MenuItem::new(name, description));
        }
        index += 1;
    }
    items
}

fn starts_command(value: &str) -> (starts: bool)
    ensures
        starts == is_command_start(value@),
{
    let characters = chars_of(value);
    if characters.len() == 0 || characters[0] != '/' {
        return false;
    }
    let mut index: usize = 0;
    while index < characters.len()
        invariant
            index <= characters@.len(),
            characters@ == value@,
            forall|i: int| 0 <= i < index ==> !is_whitespace(#[trigger] characters@[i]),
        decreases characters@.len() - index,
    {
        if is_whitespace_char(characters[index]) {
            assert(is_whitespace(value@[index as int]));
            return false;
        }
        index += 1;
    }
    true
}

/// Fits the menu to the prompt and the chat.
pub fn refresh_menu(ui: &mut UiState, projection: &ChatProjection)
    ensures
        final(ui).state() == with_fitting_menu(old(ui).state(), projection.deep_view()),
{
    proof {
        reveal(fitting_menu);
    }
    let value = ui.editor().value().to_owned();
    let kind = ui.menu().kind();
    match kind {
        Some(MenuKind::Models) => {
            let items = items_of_models(&value, projection);
            ui.menu_mut().set(MenuKind::Models, items);
        },
        Some(MenuKind::Efforts) => {
            let items = items_of_efforts(&value, projection);
            ui.menu_mut().set(MenuKind::Efforts, items);
        },
        Some(MenuKind::Processes) => {
            let items = match projection {
                ChatProjection::Draft(_) => {
                    let none: Vec<MenuItem> = Vec::new();
                    assert(none.deep_view() =~= job_items(Seq::empty()));
                    none
                },
                ChatProjection::Session(snapshot) => items_of_jobs(&snapshot.jobs),
            };
            ui.menu_mut().set(MenuKind::Processes, items);
        },
        _ => {
            let items = items_of_commands(&value);
            if starts_command(&value) && items.len() > 0 {
                ui.menu_mut().set(MenuKind::Commands, items);
            } else {
                ui.menu_mut().clear();
            }
        },
    }
    ui.request_redraw();
}

/// What a command of the menu does.
pub open spec fn named_action(value: Seq<char>, index: int) -> AppAction<Seq<char>>
    decreases COMMAND_COUNT - index,
{
    if index >= COMMAND_COUNT {
        AppAction::Nothing
    } else if command(index).0 == value {
        match command(index).2 {
            CommandAction::Quit => AppAction::Exit,
            CommandAction::Cancel => AppAction::Cancel,
            CommandAction::Model => AppAction::OpenModelSelector,
            CommandAction::Effort => AppAction::OpenEffortSelector,
            CommandAction::Processes => AppAction::OpenProcessSelector,
            CommandAction::Kill => AppAction::KillUsage,
            CommandAction::New => AppAction::NewDraft,
            CommandAction::Sessions => AppAction::OpenSessionBrowser,
        }
    } else {
        named_action(value, index + 1)
    }
}

/// What a line of the command menu does.
pub open spec fn menu_command(value: Seq<char>) -> AppAction<Seq<char>> {
    if value == "/exit"@ {
        AppAction::Exit
    } else {
        named_action(value, 0)
    }
}

/// Decides what a line of the command menu does.
pub fn command_action(value: &str) -> (action: AppAction<String>)
    ensures
        action.deep_view() == menu_command(value@),
{
    if same_text(value, "/exit") {
        return AppAction::Exit;
    }
    let mut index: usize = 0;
    while index < COMMAND_COUNT
        invariant
            index <= COMMAND_COUNT,
            value@ != "/exit"@,
            named_action(value@, 0) == named_action(value@, index as int),
        decreases COMMAND_COUNT - index,
    {
        let (name, _, action) = command_at(index);
        if same_text(name, value) {
            return match action {
                CommandAction::Quit => AppAction::Exit,
                CommandAction::Cancel => AppAction::Cancel,
                CommandAction::Model => AppAction::OpenModelSelector,
                CommandAction::Effort => AppAction::OpenEffortSelector,
                CommandAction::Processes => AppAction::OpenProcessSelector,
                CommandAction::Kill => AppAction::KillUsage,
                CommandAction::New => AppAction::NewDraft,
                CommandAction::Sessions => AppAction::OpenSessionBrowser,
            };
        }
        index += 1;
    }
    AppAction::Nothing
}

/// Something that the backend has to do.
#[derive(Debug)]
pub enum Request<T> {
    /// Submit a prompt; `draft` where it makes the chat durable.
    Submit { text: T, draft: bool },
    Cancel,
    NewDraft,
    Switch(SessionId),
    Rename { session_id: SessionId, title: T },
    /// Delete a session; `current` where it is the one shown.
    Delete { session_id: SessionId, current: bool },
    SelectModel { model: T, draft: bool },
    SelectReasoning { level: ReasoningLevel, draft: bool },
    ListJobs,
    CancelJob(T),
}

/// How the application goes on.
#[derive(Debug)]
pub enum AppStep<T> {
    Continue,
    Exit,
    /// Ask the backend, then finish with its answer.
    Ask(Request<T>),
}

impl DeepView for Request<String> {
    type V = Request<Seq<char>>;

    open spec fn deep_view(&self) -> Request<Seq<char>> {
        match self {
            Request::Submit { text, draft } => Request::Submit { text: text@, draft: *draft },
            Request::Cancel => Request::Cancel,
            Request::NewDraft => Request::NewDraft,
            Request::Switch(id) => Request::Switch(*id),
            Request::Rename { session_id, title } => Request::Rename {
                session_id: *session_id,
                title: title@,
            },
            Request::Delete { session_id, current } => Request::Delete {
                session_id: *session_id,
                current: *current,
            },
            Request::SelectModel { model, draft } => Request::SelectModel {
                model: model@,
                draft: *draft,
            },
            Request::SelectReasoning { level, draft } => Request::SelectReasoning {
                level: *level,
                draft: *draft,
            },
            Request::ListJobs => Request::ListJobs,
            Request::CancelJob(job) => Request::CancelJob(job@),
        }
    }
}

impl DeepView for AppStep<String> {
    type V = AppStep<Seq<char>>;

    open spec fn deep_view(&self) -> AppStep<Seq<char>> {
        match self {
            AppStep::Continue => AppStep::Continue,
            AppStep::Exit => AppStep::Exit,
            AppStep::Ask(request) => AppStep::Ask(request.deep_view()),
        }
    }
}

/// The screen with the prompt and the menu emptied.
pub open spec fn without_entry(ui: UiView, projection: ProjectionView) -> UiView {
    with_fitting_menu(
        UiView {
            menu: MenuView::closed_menu(),
            editor: ui.editor.with_value(Seq::empty(), 0),
            ..ui
        },
        projection,
    )
}

/// The screen with a selector opened.
pub open spec fn with_selector(ui: UiView, projection: ProjectionView, kind: MenuKind) -> UiView {
    with_fitting_menu(
        UiView {
            menu: MenuView::opened(kind, Seq::empty()),
            editor: ui.editor.with_value(Seq::empty(), 0),
            ..ui
        },
        projection,
    )
}

/// The screen with the prompt replaced.
pub open spec fn with_prompt(ui: UiView, projection: ProjectionView, text: Seq<char>) -> UiView {
    with_fitting_menu(
        UiView {
            editor: ui.editor.with_value(
                editor_text(text),
                graphemes(editor_text(text)).len() as int,
            ),
            ..ui
        },
        projection,
    )
}

fn open_selector(ui: &mut UiState, projection: &ChatProjection, kind: MenuKind)
    ensures
        final(ui).state() == with_selector(old(ui).state(), projection.deep_view(), kind),
{
    ui.editor_mut().clear();
    let none: Vec<MenuItem> = Vec::new();
    assert(none.deep_view() =~= Seq::empty());
    ui.menu_mut().set(kind, none);
    refresh_menu(ui, projection);
}

fn clear_command_entry(ui: &mut UiState, projection: &ChatProjection)
    ensures
        final(ui).state() == without_entry(old(ui).state(), projection.deep_view()),
{
    ui.menu_mut().clear();
    ui.editor_mut().clear();
    refresh_menu(ui, projection);
}

fn set_prompt(ui: &mut UiState, projection: &ChatProjection, text: &str)
    ensures
        final(ui).state() == with_prompt(old(ui).state(), projection.deep_view(), text@),
{
    ui.editor_mut().set_value(text);
    refresh_menu(ui, projection);
}

/// The place of a reasoning level, or the number of levels where it is not among them.
pub open spec fn level_place(levels: Seq<ReasoningLevel>, level: ReasoningLevel, from: int) -> int
    decreases levels.len() - from,
{
    if from >= levels.len() {
        levels.len() as int
    } else if levels[from] == level {
        from
    } else {
        level_place(levels, level, from + 1)
    }
}

/// The supported reasoning level after the current one, the first after the last.
pub open spec fn next_effort(projection: ProjectionView) -> Option<ReasoningLevel> {
    let levels = efforts(projection);
    let place = level_place(levels, projection.settings().reasoning, 0);
    if place >= levels.len() {
        None
    } else if place + 1 == levels.len() {
        Some(levels[0])
    } else {
        Some(levels[place + 1])
    }
}

fn effort_after(projection: &ChatProjection) -> (level: Option<ReasoningLevel>)
    ensures
        level == next_effort(projection.deep_view()),
{
    let levels = available_efforts(projection);
    let current = projection.settings().reasoning;
    let mut index: usize = 0;
    while index < levels.len()
        invariant
            index <= levels@.len(),
            levels@ == efforts(projection.deep_view()),
            current == projection.deep_view().settings().reasoning,
            level_place(levels@, current, 0) == level_place(levels@, current, index as int),
        decreases levels@.len() - index,
    {
        if levels[index] == current {
            return Some(if index == levels.len() - 1 { levels[0] } else { levels[index + 1] });
        }
        index += 1;
    }
    None
}

/// Why a title is not accepted.
pub open spec fn invalid_title_message() -> Seq<char> {
    "session title must be one line of 1 to 64 characters"@
}

/// What an action does at once, and what it asks of the backend.
#[verifier::opaque]
pub open spec fn begun(ui: UiView, projection: ProjectionView, action: AppAction<Seq<char>>) -> (
    UiView,
    AppStep<Seq<char>>,
) {
    let draft = projection is Draft;
    match action {
        AppAction::Nothing => (ui, AppStep::Continue),
        AppAction::Submit(text) => if draft && is_blank(text) {
            (ui, AppStep::Continue)
        } else if projection.is_busy() {
            (with_prompt(ui, projection, text), AppStep::Continue)
        } else {
            (ui, AppStep::Ask(Request::Submit { text, draft }))
        },
        AppAction::Cancel => if draft {
            (
                without_entry(ui, projection).with_notice("No running request."@),
                AppStep::Continue,
            )
        } else {
            (ui, AppStep::Ask(Request::Cancel))
        },
        AppAction::NewDraft => (ui, AppStep::Ask(Request::NewDraft)),
        AppAction::NewUsage => (ui.with_error("Usage: /new"@), AppStep::Continue),
        AppAction::OpenSessionBrowser => {
            let cleared = without_entry(ui, projection);
            (UiView { browser: cleared.browser.opened(), ..cleared }, AppStep::Continue)
        },
        AppAction::SwitchSession(id) => (ui, AppStep::Ask(Request::Switch(id))),
        AppAction::RenameSession { session_id, title } => match label_of(
            title,
            MAX_TITLE_CHARACTERS as int,
        ) {
            Some(title) => (ui, AppStep::Ask(Request::Rename { session_id, title })),
            None => (
                with_rename_error(ui, sanitized_line(invalid_title_message())),
                AppStep::Continue,
            ),
        },
        AppAction::DeleteSession(session_id) => (
            ui,
            AppStep::Ask(
                Request::Delete {
                    session_id,
                    current: projection.session_id() == Some(session_id),
                },
            ),
        ),
        AppAction::OpenModelSelector => (
            with_selector(ui, projection, MenuKind::Models),
            AppStep::Continue,
        ),
        AppAction::OpenEffortSelector => (
            with_selector(ui, projection, MenuKind::Efforts),
            AppStep::Continue,
        ),
        AppAction::OpenHelp => (ui.with_popup(Some(PopupKind::Help)), AppStep::Continue),
        AppAction::ToggleSidebar => (ui.with_sidebar_toggled(), AppStep::Continue),
        AppAction::SelectModel(model) => (
            without_entry(ui, projection),
            AppStep::Ask(Request::SelectModel { model, draft }),
        ),
        AppAction::ModelNotFound(query) => (
            without_entry(ui, projection).with_error(
                "No available model matches `"@ + sanitized_line(query) + "`."@,
            ),
            AppStep::Continue,
        ),
        AppAction::SelectEffort(level) => (
            without_entry(ui, projection),
            AppStep::Ask(Request::SelectReasoning { level, draft }),
        ),
        AppAction::EffortNotFound(query) => (
            without_entry(ui, projection).with_error(
                "Reasoning effort `"@ + sanitized_line(query)
                    + "` is not supported by the active model."@,
            ),
            AppStep::Continue,
        ),
        AppAction::CycleEffort => match next_effort(projection) {
            Some(level) => (ui, AppStep::Ask(Request::SelectReasoning { level, draft })),
            None => (ui, AppStep::Continue),
        },
        AppAction::OpenProcessSelector => if draft {
            (
                without_entry(ui, projection).with_notice("No running background processes."@),
                AppStep::Continue,
            )
        } else {
            (ui, AppStep::Ask(Request::ListJobs))
        },
        AppAction::PrepareKill(job) => (
            with_prompt(
                UiView { menu: MenuView::closed_menu(), ..ui },
                projection,
                "/kill "@ + job,
            ),
            AppStep::Continue,
        ),
        AppAction::Kill(job) => if draft {
            (ui.with_notice("No running background processes."@), AppStep::Continue)
        } else {
            (ui, AppStep::Ask(Request::CancelJob(job)))
        },
        AppAction::KillUsage => if draft {
            (
                without_entry(ui, projection).with_notice("No running background processes."@),
                AppStep::Continue,
            )
        } else {
            (ui.with_error("Usage: /kill job-N"@), AppStep::Continue)
        },
        AppAction::Exit => (ui, AppStep::Exit),
    }
}

/// The screen with an error in the rename dialog.
pub open spec fn with_rename_error(ui: UiView, error: Seq<char>) -> UiView {
    UiView {
        browser: BrowserView {
            layer: match ui.browser.layer {
                LayerView::Rename { session_id, editor, .. } => LayerView::Rename {
                    session_id,
                    editor,
                    error: Some(error),
                },
                layer => layer,
            },
            ..ui.browser
        },
        ..ui
    }
}

fn quoted(before: &str, query: &str, after: &str) -> (text: String)
    ensures
        text@ == before@ + sanitized_line(query@) + after@,
{
    let mut text = before.to_owned();
    let line = sanitize_line(query);
    text.push_str(&line);
    text.push_str(after);
    text
}

/// Does what an action does at once, and returns what it asks of the backend.
#[verifier::rlimit(40)]
#[verifier::spinoff_prover]
pub fn begin_action(ui: &mut UiState, projection: &ChatProjection, action: AppAction<String>) -> (step:
    AppStep<String>)
    requires
        old(ui).state().wf(),
    ensures
        (final(ui).state(), step.deep_view()) == begun(
            old(ui).state(),
            projection.deep_view(),
            action.deep_view(),
        ),
        final(ui).state().wf(),
{
    proof {
        reveal(begun);
    }
    let draft = projection.is_draft();
    match action {
        AppAction::Nothing => {},
        AppAction::Submit(text) => {
            if draft && is_blank_text(&text) {
                return AppStep::Continue;
            }
            if !projection.is_busy() {
                return AppStep::Ask(Request::Submit { text, draft });
            }
            set_prompt(ui, projection, &text);
        },
        AppAction::Cancel => {
            if !draft {
                return AppStep::Ask(Request::Cancel);
            }
            clear_command_entry(ui, projection);
            ui.push_notice("No running request.");
        },
        AppAction::NewDraft => {
            return AppStep::Ask(Request::NewDraft);
        },
        AppAction::NewUsage => ui.push_error("Usage: /new"),
        AppAction::OpenSessionBrowser => {
            clear_command_entry(ui, projection);
            ui.session_browser_mut().open();
        },
        AppAction::SwitchSession(id) => {
            return AppStep::Ask(Request::Switch(id));
        },
        AppAction::RenameSession { session_id, title } => {
            match SessionTitle::parse(&title) {
                Ok(title) => {
                    return AppStep::Ask(Request::Rename { session_id, title: title.value });
                },
                Err(_) => {
                    let error = sanitize_line(
                        "session title must be one line of 1 to 64 characters",
                    );
                    ui.session_browser_mut().set_rename_error(error);
                },
            }
        },
        AppAction::DeleteSession(session_id) => {
            let current = match projection.session_id() {
                Some(id) => id == session_id,
                None => false,
            };
            return AppStep::Ask(Request::Delete { session_id, current });
        },
        AppAction::OpenModelSelector => open_selector(ui, projection, MenuKind::Models),
        AppAction::OpenEffortSelector => open_selector(ui, projection, MenuKind::Efforts),
        AppAction::OpenHelp => ui.set_popup(Some(PopupKind::Help)),
        AppAction::ToggleSidebar => ui.toggle_sidebar(),
        AppAction::SelectModel(model) => {
            clear_command_entry(ui, projection);
            return AppStep::Ask(Request::SelectModel { model, draft });
        },
        AppAction::ModelNotFound(query) => {
            clear_command_entry(ui, projection);
            let message = quoted("No available model matches `", &query, "`.");
            ui.push_error(&message);
        },
        AppAction::SelectEffort(level) => {
            clear_command_entry(ui, projection);
            return AppStep::Ask(Request::SelectReasoning { level, draft });
        },
        AppAction::EffortNotFound(query) => {
            clear_command_entry(ui, projection);
            let message = quoted(
                "Reasoning effort `",
                &query,
                "` is not supported by the active model.",
            );
            ui.push_error(&message);
        },
        AppAction::CycleEffort => {
            if let Some(level) = effort_after(projection) {
                return AppStep::Ask(Request::SelectReasoning { level, draft });
            }
        },
        AppAction::OpenProcessSelector => {
            if !draft {
                return AppStep::Ask(Request::ListJobs);
            }
            clear_command_entry(ui, projection);
            ui.push_notice("No running background processes.");
        },
        AppAction::PrepareKill(job) => {
            ui.menu_mut().clear();
            let mut text = "/kill ".to_owned();
            text.push_str(&job);
            set_prompt(ui, projection, &text);
        },
        AppAction::Kill(job) => {
            if !draft {
                return AppStep::Ask(Request::CancelJob(job));
            }
            ui.push_notice("No running background processes.");
        },
        AppAction::KillUsage => {
            if draft {
                clear_command_entry(ui, projection);
                ui.push_notice("No running background processes.");
            } else {
                ui.push_error("Usage: /kill job-N");
            }
        },
        AppAction::Exit => {
            return AppStep::Exit;
        },
    }
    AppStep::Continue
}

/// What the answer to a request does; an error is given by its message.
pub open spec fn finished(
    ui: UiView,
    projection: ProjectionView,
    request: Request<Seq<char>>,
    error: Option<Seq<char>>,
) -> UiView {
    match (request, error) {
        (Request::Submit { draft, .. }, None) => if draft {
            ui.for_another_chat()
        } else {
            ui
        },
        (Request::Submit { text, draft }, Some(message)) => if draft {
            with_prompt(ui, projection, text).with_error(message)
        } else {
            ui.with_error(message)
        },
        (Request::NewDraft, None) => ui.for_another_chat(),
        (Request::Switch(_), None) => ui.for_another_chat(),
        (Request::Rename { .. }, None) => UiView {
            browser: if ui.browser.layer is Rename {
                BrowserView { layer: LayerView::List, refresh_requested: true, ..ui.browser }
            } else {
                ui.browser
            },
            ..ui
        },
        (Request::Rename { .. }, Some(message)) => with_rename_error(ui, sanitized_line(message)),
        (Request::Delete { session_id, current }, None) => if current {
            ui.for_another_chat()
        } else {
            UiView {
                browser: BrowserView {
                    sessions: super::ui::session_browser::without_session(
                        ui.browser.sessions,
                        session_id,
                    ),
                    layer: LayerView::List,
                    refresh_requested: true,
                    ..ui.browser
                }.rebuilt(),
                ..ui
            }
        },
        (Request::Switch(_), Some(message)) | (Request::Delete { .. }, Some(message)) => UiView {
            browser: BrowserView { action_error: Some(sanitized_line(message)), ..ui.browser },
            ..ui
        },
        (Request::SelectModel { draft: true, .. }, None) => ui.without_error(),
        (Request::SelectReasoning { draft: true, .. }, None) => ui.without_error(),
        (_, None) => ui,
        (_, Some(message)) => ui.with_error(message),
    }
}

/// Finishes a request with its answer. `projection` is the chat after the request.
pub fn finish_request(
    ui: &mut UiState,
    projection: &ChatProjection,
    request: &Request<String>,
    result: Result<(), ClientSessionError>,
)
    requires
        old(ui).state().wf(),
    ensures
        final(ui).state() == finished(
            old(ui).state(),
            projection.deep_view(),
            request.deep_view(),
            match result {
                Ok(()) => None,
                Err(error) => Some(error.message@),
            },
        ),
        final(ui).state().wf(),
{
    match result {
        Ok(()) => match request {
            Request::Submit { draft, .. } => {
                if *draft {
                    ui.chat_transition_reset();
                }
            },
            Request::NewDraft | Request::Switch(_) => ui.chat_transition_reset(),
            Request::Rename { .. } => ui.session_browser_mut().finish_rename(),
            Request::Delete { session_id, current } => {
                if *current {
                    ui.chat_transition_reset();
                } else {
                    ui.session_browser_mut().finish_delete(*session_id);
                }
            },
            Request::SelectModel { draft, .. } | Request::SelectReasoning { draft, .. } => {
                if *draft {
                    ui.clear_local_error();
                }
            },
            Request::Cancel | Request::ListJobs | Request::CancelJob(_) => {},
        },
        Err(error) => match request {
            Request::Submit { text, draft } => {
                if *draft {
                    set_prompt(ui, projection, text);
                }
                ui.push_error(&error.message);
            },
            Request::Rename { .. } => {
                let line = sanitize_line(&error.message);
                ui.session_browser_mut().set_rename_error(line);
            },
            Request::Switch(_) | Request::Delete { .. } => {
                let line = sanitize_line(&error.message);
                ui.session_browser_mut().set_action_error(line);
            },
            _ => ui.push_error(&error.message),
        },
    }
}

/// Opens the selector of the running jobs that the backend listed.
pub fn finish_job_list(ui: &mut UiState, jobs: &Vec<JobSnapshotDto>)
    requires
        old(ui).state().wf(),
    ensures
        final(ui).state() == ({
            let emptied = UiView {
                editor: old(ui).state().editor.with_value(Seq::empty(), 0),
                ..old(ui).state()
            };
            let items = job_items(jobs.deep_view());
            if items.len() == 0 {
                UiView { menu: MenuView::closed_menu(), ..emptied }.with_notice(
                    "No running background processes."@,
                )
            } else {
                UiView {
                    menu: MenuView::opened(MenuKind::Processes, items),
                    ..emptied
                }.redrawn()
            }
        }),
        final(ui).state().wf(),
{
    ui.editor_mut().clear();
    let items = items_of_jobs(jobs);
    if items.len() == 0 {
        ui.menu_mut().clear();
        ui.push_notice("No running background processes.");
    } else {
        ui.menu_mut().set(MenuKind::Processes, items);
        ui.request_redraw();
    }
}

/// The name of a job state.
pub open spec fn job_state_name(state: JobState) -> Seq<char> {
    match state {
        JobState::Running => "running"@,
        JobState::Completed => "completed"@,
        JobState::Failed => "failed"@,
        JobState::Cancelled => "cancelled"@,
    }
}

/// The name of a job state.
pub fn job_state_text(state: JobState) -> (name: &'static str)
    ensures
        name@ == job_state_name(state),
{
    match state {
        JobState::Running => "running",
        JobState::Completed => "completed",
        JobState::Failed => "failed",
        JobState::Cancelled => "cancelled",
    }
}

/// Reports what became of a job that was to be cancelled.
pub fn finish_job_cancel(ui: &mut UiState, job: &JobSnapshotDto)
    requires
        old(ui).state().wf(),
    ensures
        final(ui).state() == old(ui).state().with_notice(
            if job.state == JobState::Cancelled {
                "Terminated "@ + job.id@ + "."@
            } else {
                job.id@ + " is already "@ + job_state_name(job.state) + "."@
            },
        ),
        final(ui).state().wf(),
{
    let mut message = String::new();
    if job.state == JobState::Cancelled {
        message.push_str("Terminated ");
        message.push_str(&job.id);
        assert(message@ =~= "Terminated "@ + job.id@);
    } else {
        message.push_str(&job.id);
        message.push_str(" is already ");
        message.push_str(job_state_text(job.state));
        assert(message@ =~= job.id@ + " is already "@ + job_state_name(job.state));
    }
    message.push_str(".");
    ui.push_notice(&message);
}

/// Control with a letter of either case.
pub open spec fn is_control_key(key: KeyEvent, lower: char, upper: char) -> bool {
    key.modifiers.control && (key.code == KeyCode::Char(lower) || key.code == KeyCode::Char(upper))
}

fn control_shortcut(key: &KeyEvent, lower: char, upper: char) -> (shortcut: bool)
    ensures
        shortcut == is_control_key(*key, lower, upper),
{
    key.modifiers.control && (key.code == KeyCode::Char(lower) || key.code == KeyCode::Char(upper))
}

/// A menu that takes the prompt for its filter.
pub open spec fn is_selector(kind: Option<MenuKind>) -> bool {
    kind is Some && kind != Some(MenuKind::Commands)
}

fn kind_is_selector(kind: Option<MenuKind>) -> (selector: bool)
    ensures
        selector == is_selector(kind),
{
    match kind {
        Some(MenuKind::Models) | Some(MenuKind::Efforts) | Some(MenuKind::Processes) => true,
        _ => false,
    }
}

/// What choosing a line of a menu does.
pub open spec fn chosen_action(kind: Option<MenuKind>, value: Seq<char>) -> AppAction<Seq<char>> {
    match kind {
        Some(MenuKind::Commands) => menu_command(value),
        Some(MenuKind::Models) => AppAction::SelectModel(value),
        Some(MenuKind::Efforts) => match reasoning_of(value) {
            Some(level) => AppAction::SelectEffort(level),
            None => AppAction::Nothing,
        },
        Some(MenuKind::Processes) => AppAction::PrepareKill(value),
        None => AppAction::Nothing,
    }
}

/// What a key does to an open menu, or `None` where the menu leaves it to the prompt.
pub open spec fn menu_handled(ui: UiView, projection: ProjectionView, key: KeyEvent) -> Option<
    (UiView, AppStep<Seq<char>>),
> {
    let plain = key.modifiers == KeyModifiers::spec_none();
    if !ui.menu.is_open() {
        None
    } else if key.code == KeyCode::Up {
        Some(
            (
                if plain {
                    UiView { menu: ui.menu.with_previous(), ..ui }.redrawn()
                } else {
                    ui
                },
                AppStep::Continue,
            ),
        )
    } else if key.code == KeyCode::Down {
        Some(
            (
                if plain {
                    UiView { menu: ui.menu.with_next(), ..ui }.redrawn()
                } else {
                    ui
                },
                AppStep::Continue,
            ),
        )
    } else if !plain {
        None
    } else if key.code == KeyCode::Tab {
        Some(
            (
                match ui.menu.value() {
                    Some(value) => with_prompt(ui, projection, value),
                    None => ui,
                },
                AppStep::Continue,
            ),
        )
    } else if key.code == KeyCode::Enter {
        Some(
            match ui.menu.value() {
                Some(value) => begun(ui, projection, chosen_action(ui.menu.kind, value)),
                None => (ui, AppStep::Continue),
            },
        )
    } else {
        None
    }
}

fn handle_menu_event(ui: &mut UiState, projection: &ChatProjection, key: &KeyEvent) -> (step: Option<
    AppStep<String>,
>)
    requires
        old(ui).state().wf(),
    ensures
        match menu_handled(old(ui).state(), projection.deep_view(), *key) {
            Some((state, expected)) => step is Some && step->0.deep_view() == expected
                && final(ui).state() == state,
            None => step is None && final(ui).state() == old(ui).state(),
        },
        final(ui).state().wf(),
{
    if !ui.menu().is_open() {
        return None;
    }
    let plain = key.modifiers == KeyModifiers::none();
    match key.code {
        KeyCode::Up => {
            if plain {
                ui.menu_mut().select_previous();
                ui.request_redraw();
            }
            return Some(AppStep::Continue);
        },
        KeyCode::Down => {
            if plain {
                ui.menu_mut().select_next();
                ui.request_redraw();
            }
            return Some(AppStep::Continue);
        },
        _ => {},
    }
    if !plain {
        return None;
    }
    match key.code {
        KeyCode::Tab => {
            let value = match ui.menu().selected_value() {
                Some(value) => Some(value.to_owned()),
                None => None,
            };
            if let Some(value) = value {
                set_prompt(ui, projection, &value);
            }
            Some(AppStep::Continue)
        },
        KeyCode::Enter => {
            let value = match ui.menu().selected_value() {
                Some(value) => value.to_owned(),
                None => {
                    return Some(AppStep::Continue);
                },
            };
            let action = match ui.menu().kind() {
                Some(MenuKind::Commands) => command_action(&value),
                Some(MenuKind::Models) => AppAction::SelectModel(value),
                Some(MenuKind::Efforts) => match ReasoningLevel::parse(&value) {
                    Some(level) => AppAction::SelectEffort(level),
                    None => AppAction::Nothing,
                },
                Some(MenuKind::Processes) => AppAction::PrepareKill(value),
                None => AppAction::Nothing,
            };
            Some(begin_action(ui, projection, action))
        },
        _ => None,
    }
}

/// What an event does while the session browser is open.
pub open spec fn browser_handled(ui: UiView, projection: ProjectionView, event: EventView) -> (
    UiView,
    AppStep<Seq<char>>,
) {
    let (browser, action) = ui.browser.after(event);
    let shown = UiView { browser, ..ui }.redrawn();
    match action {
        ActionView::Nothing | ActionView::Refresh => (shown, AppStep::Continue),
        ActionView::Switch(id) => begun(shown, projection, AppAction::SwitchSession(id)),
        ActionView::Rename { session_id, title } => begun(
            shown,
            projection,
            AppAction::RenameSession { session_id, title },
        ),
        ActionView::Delete(id) => begun(shown, projection, AppAction::DeleteSession(id)),
    }
}

fn handle_browser_event(ui: &mut UiState, projection: &ChatProjection, event: &Event) -> (step:
    AppStep<String>)
    requires
        old(ui).state().wf(),
    ensures
        (final(ui).state(), step.deep_view()) == browser_handled(
            old(ui).state(),
            projection.deep_view(),
            event.deep_view(),
        ),
        final(ui).state().wf(),
{
    let action = ui.session_browser_mut().handle_event(event);
    ui.request_redraw();
    match action {
        BrowserAction::Nothing | BrowserAction::Refresh => AppStep::Continue,
        BrowserAction::Switch(id) => begin_action(ui, projection, AppAction::SwitchSession(id)),
        BrowserAction::Rename { session_id, title } => begin_action(
            ui,
            projection,
            AppAction::RenameSession { session_id, title },
        ),
        BrowserAction::Delete(id) => begin_action(ui, projection, AppAction::DeleteSession(id)),
    }
}

/// What the keys do that work wherever the prompt stands, or `None` for another key.
pub open spec fn shortcut_handled(ui: UiView, projection: ProjectionView, key: KeyEvent) -> Option<
    (UiView, AppStep<Seq<char>>),
> {
    if is_control_key(key, 'o', 'O') {
        Some(begun(ui, projection, AppAction::OpenHelp))
    } else if is_control_key(key, 't', 'T') {
        Some(begun(ui, projection, AppAction::ToggleSidebar))
    } else if key.code == KeyCode::Esc && ui.popup is Some {
        Some((ui.with_popup(None), AppStep::Continue))
    } else if key.code == KeyCode::PageUp {
        Some((UiView { scroll: ui.scroll.up(ui.scroll.page()), ..ui }.redrawn(), AppStep::Continue))
    } else if key.code == KeyCode::PageDown {
        Some(
            (UiView { scroll: ui.scroll.down(ui.scroll.page()), ..ui }.redrawn(), AppStep::Continue),
        )
    } else if key.code == KeyCode::End && ui.editor.cursor == ui.editor.pieces().len()
        && ui.popup is None && !ui.menu.is_open() {
        Some((UiView { scroll: ui.scroll.following(), ..ui }.redrawn(), AppStep::Continue))
    } else if key.code == KeyCode::Esc && is_selector(ui.menu.kind) {
        Some((without_entry(ui, projection), AppStep::Continue))
    } else if key.code == KeyCode::Esc && projection.is_busy() {
        Some(begun(ui, projection, AppAction::Cancel))
    } else if key.code == KeyCode::Esc && ui.menu.is_open() {
        Some((UiView { menu: MenuView::closed_menu(), ..ui }.redrawn(), AppStep::Continue))
    } else {
        None
    }
}

fn handle_shortcut(ui: &mut UiState, projection: &ChatProjection, key: &KeyEvent) -> (step: Option<
    AppStep<String>,
>)
    requires
        old(ui).state().wf(),
    ensures
        match shortcut_handled(old(ui).state(), projection.deep_view(), *key) {
            Some((state, expected)) => step is Some && step->0.deep_view() == expected
                && final(ui).state() == state,
            None => step is None && final(ui).state() == old(ui).state(),
        },
        final(ui).state().wf(),
{
    if control_shortcut(key, 'o', 'O') {
        return Some(begin_action(ui, projection, AppAction::OpenHelp));
    }
    if control_shortcut(key, 't', 'T') {
        return Some(begin_action(ui, projection, AppAction::ToggleSidebar));
    }
    if key.code == KeyCode::Esc && ui.popup().is_some() {
        ui.set_popup(None);
        return Some(AppStep::Continue);
    }
    if key.code == KeyCode::PageUp {
        ui.scroll_mut().page_up();
        ui.request_redraw();
        return Some(AppStep::Continue);
    }
    if key.code == KeyCode::PageDown {
        ui.scroll_mut().page_down();
        ui.request_redraw();
        return Some(AppStep::Continue);
    }
    if key.code == KeyCode::End && ui.editor().at_final_line_end() && ui.popup().is_none()
        && !ui.menu().is_open() {
        ui.scroll_mut().follow_latest();
        ui.request_redraw();
        return Some(AppStep::Continue);
    }
    if key.code == KeyCode::Esc {
        if kind_is_selector(ui.menu().kind()) {
            clear_command_entry(ui, projection);
            return Some(AppStep::Continue);
        }
        if projection.is_busy() {
            return Some(begin_action(ui, projection, AppAction::Cancel));
        }
        if ui.menu().is_open() {
            ui.menu_mut().clear();
            ui.request_redraw();
            return Some(AppStep::Continue);
        }
    }
    None
}

/// What the keys do that open a selector or change the effort, or `None` for another key. They do
/// nothing during a run, under the help and in the process selector.
pub open spec fn selection_handled(ui: UiView, projection: ProjectionView, key: KeyEvent) -> Option<
    (UiView, AppStep<Seq<char>>),
> {
    let guarded = projection.is_busy() || ui.popup is Some || ui.menu.kind == Some(
        MenuKind::Processes,
    );
    let asked = if is_control_key(key, 'l', 'L') {
        Some(AppAction::OpenModelSelector)
    } else if is_control_key(key, 'r', 'R') {
        Some(AppAction::OpenEffortSelector)
    } else if (key.code == KeyCode::Tab || key.code == KeyCode::BackTab) && key.modifiers
        == KeyModifiers::spec_shift() {
        Some(AppAction::CycleEffort)
    } else {
        None
    };
    match asked {
        Some(action) => Some(
            if guarded {
                (ui, AppStep::Continue)
            } else {
                begun(ui, projection, action)
            },
        ),
        None => None,
    }
}

fn handle_selection(ui: &mut UiState, projection: &ChatProjection, key: &KeyEvent) -> (step: Option<
    AppStep<String>,
>)
    requires
        old(ui).state().wf(),
    ensures
        match selection_handled(old(ui).state(), projection.deep_view(), *key) {
            Some((state, expected)) => step is Some && step->0.deep_view() == expected
                && final(ui).state() == state,
            None => step is None && final(ui).state() == old(ui).state(),
        },
        final(ui).state().wf(),
{
    let processes = match ui.menu().kind() {
        Some(MenuKind::Processes) => true,
        _ => false,
    };
    let guarded = projection.is_busy() || ui.help_open() || processes;
    let action: AppAction<String> = if control_shortcut(key, 'l', 'L') {
        AppAction::OpenModelSelector
    } else if control_shortcut(key, 'r', 'R') {
        AppAction::OpenEffortSelector
    } else if (key.code == KeyCode::Tab || key.code == KeyCode::BackTab) && key.modifiers
        == KeyModifiers::shift() {
        AppAction::CycleEffort
    } else {
        return None;
    };
    if guarded {
        return Some(AppStep::Continue);
    }
    Some(begin_action(ui, projection, action))
}

/// What an event does that reaches the prompt.
pub open spec fn prompt_handled(ui: UiView, projection: ProjectionView, event: EventView) -> (
    UiView,
    AppStep<Seq<char>>,
) {
    let (editor, outcome) = ui.editor.after(event);
    let edited = UiView { editor, ..ui };
    match outcome {
        EditorOutcomeView::Ignored | EditorOutcomeView::Consumed => (edited, AppStep::Continue),
        EditorOutcomeView::Changed => (with_fitting_menu(edited, projection), AppStep::Continue),
        EditorOutcomeView::Submitted(text) => begun(
            edited.redrawn(),
            projection,
            submitted_action(edited.menu.kind, projection, text),
        ),
    }
}

fn handle_prompt_event(ui: &mut UiState, projection: &ChatProjection, event: &Event) -> (step:
    AppStep<String>)
    requires
        old(ui).state().wf(),
    ensures
        (final(ui).state(), step.deep_view()) == prompt_handled(
            old(ui).state(),
            projection.deep_view(),
            event.deep_view(),
        ),
        final(ui).state().wf(),
{
    match ui.editor_mut().handle_event(event) {
        EditorOutcome::Ignored | EditorOutcome::Consumed => AppStep::Continue,
        EditorOutcome::Changed => {
            refresh_menu(ui, projection);
            AppStep::Continue
        },
        EditorOutcome::Submitted(text) => {
            ui.request_redraw();
            let action = resolve_submission(ui, projection, text);
            begin_action(ui, projection, action)
        },
    }
}

/// What a key or a paste does below the popup.
pub open spec fn entry_handled(ui: UiView, projection: ProjectionView, event: EventView) -> (
    UiView,
    AppStep<Seq<char>>,
) {
    if ui.popup is Some {
        (ui, AppStep::Continue)
    } else if event is Key && menu_handled(ui, projection, event->Key_0) is Some {
        menu_handled(ui, projection, event->Key_0)->0
    } else {
        prompt_handled(ui, projection, event)
    }
}

/// What an event does.
pub open spec fn handled(ui: UiView, projection: ProjectionView, event: EventView) -> (
    UiView,
    AppStep<Seq<char>>,
) {
    if event is Key && event->Key_0.kind == KeyEventKind::Release {
        (ui, AppStep::Continue)
    } else if event is Key && is_control_key(event->Key_0, 'c', 'C') {
        (ui, AppStep::Exit)
    } else if event is Resize {
        (ui.redrawn(), AppStep::Continue)
    } else if ui.browser.open {
        browser_handled(ui, projection, event)
    } else if event is Key && shortcut_handled(ui, projection, event->Key_0) is Some {
        shortcut_handled(ui, projection, event->Key_0)->0
    } else if event == EventView::Mouse(MouseEventKind::ScrollUp) {
        (
            UiView {
                scroll: ui.scroll.up(super::ui::widgets::MOUSE_SCROLL_ROWS as int),
                ..ui
            }.redrawn(),
            AppStep::Continue,
        )
    } else if event == EventView::Mouse(MouseEventKind::ScrollDown) {
        (
            UiView {
                scroll: ui.scroll.down(super::ui::widgets::MOUSE_SCROLL_ROWS as int),
                ..ui
            }.redrawn(),
            AppStep::Continue,
        )
    } else if event is Key && selection_handled(ui, projection, event->Key_0) is Some {
        selection_handled(ui, projection, event->Key_0)->0
    } else {
        entry_handled(ui, projection, event)
    }
}

/// Control-C ends the application whatever is on the screen.
pub proof fn lemma_control_c_always_exits(
    ui: UiView,
    projection: ProjectionView,
    modifiers: KeyModifiers,
    kind: KeyEventKind,
)
    requires
        modifiers.control,
        kind != KeyEventKind::Release,
    ensures
        handled(
            ui,
            projection,
            EventView::Key(KeyEvent { code: KeyCode::Char('c'), modifiers, kind }),
        ) == (ui, AppStep::<Seq<char>>::Exit),
{
}

/// A released key does nothing.
pub proof fn lemma_releases_do_nothing(ui: UiView, projection: ProjectionView, key: KeyEvent)
    requires
        key.kind == KeyEventKind::Release,
    ensures
        handled(ui, projection, EventView::Key(key)) == (ui, AppStep::<Seq<char>>::Continue),
{
}

/// No prompt is submitted while a run is active: it goes back into the editor.
pub proof fn lemma_no_submission_while_busy(ui: UiView, projection: ProjectionView, text: Seq<char>)
    requires
        projection.is_busy(),
    ensures
        begun(ui, projection, AppAction::Submit(text)) == (
            with_prompt(ui, projection, text),
            AppStep::<Seq<char>>::Continue,
        ),
{
    reveal(begun);
}

/// Escape cancels the active run where nothing is open that it would close.
pub proof fn lemma_escape_cancels_the_active_run(ui: UiView, projection: ProjectionView)
    requires
        projection.is_busy(),
        !ui.browser.open,
        ui.popup is None,
        !is_selector(ui.menu.kind),
    ensures
        handled(
            ui,
            projection,
            EventView::Key(
                KeyEvent {
                    code: KeyCode::Esc,
                    modifiers: KeyModifiers::spec_none(),
                    kind: KeyEventKind::Press,
                },
            ),
        ) == (ui, AppStep::Ask(Request::<Seq<char>>::Cancel)),
{
    reveal(begun);
}

/// Escape closes an open menu of whatever kind where no run is active and nothing lies above the
/// menu.
pub proof fn lemma_escape_closes_the_open_menu(
    ui: UiView,
    projection: ProjectionView,
    modifiers: KeyModifiers,
    kind: KeyEventKind,
)
    requires
        ui.menu.is_open(),
        !projection.is_busy(),
        !ui.browser.open,
        ui.popup is None,
        kind != KeyEventKind::Release,
    ensures
        ({
            let (after, step) = handled(
                ui,
                projection,
                EventView::Key(KeyEvent { code: KeyCode::Esc, modifiers, kind }),
            );
            &&& after.menu == MenuView::closed_menu()
            &&& !after.menu.is_open()
            &&& step == AppStep::<Seq<char>>::Continue
        }),
{
    reveal(fitting_menu);
}

/// Handles a terminal event.
pub fn handle_event(ui: &mut UiState, projection: &ChatProjection, event: &Event) -> (step: AppStep<
    String,
>)
    requires
        old(ui).state().wf(),
    ensures
        (final(ui).state(), step.deep_view()) == handled(
            old(ui).state(),
            projection.deep_view(),
            event.deep_view(),
        ),
        final(ui).state().wf(),
{
    if let Event::Key(key) = event {
        if key.kind == KeyEventKind::Release {
            return AppStep::Continue;
        }
        if control_shortcut(key, 'c', 'C') {
            return AppStep::Exit;
        }
    }
    if let Event::Resize(_, _) = event {
        ui.request_redraw();
        return AppStep::Continue;
    }
    if ui.session_browser().is_open() {
        return handle_browser_event(ui, projection, event);
    }
    match event {
        Event::Key(key) => {
            if let Some(step) = handle_shortcut(ui, projection, key) {
                return step;
            }
            if let Some(step) = handle_selection(ui, projection, key) {
                return step;
            }
        },
        Event::Mouse(MouseEventKind::ScrollUp) => {
            ui.scroll_mut().wheel_up();
            ui.request_redraw();
            return AppStep::Continue;
        },
        Event::Mouse(MouseEventKind::ScrollDown) => {
            ui.scroll_mut().wheel_down();
            ui.request_redraw();
            return AppStep::Continue;
        },
        _ => {},
    }
    if ui.popup().is_some() {
        return AppStep::Continue;
    }
    if let Event::Key(key) = event {
        if let Some(step) = handle_menu_event(ui, projection, key) {
            return step;
        }
    }
    handle_prompt_event(ui, projection, event)
}

/// Why an update must not reach the screen.
pub open spec fn update_error(update: WorkspaceUpdate) -> Option<Seq<char>> {
    match update {
        WorkspaceUpdate::Session(SessionUpdate::Event(envelope)) => if envelope.event is Deleted {
            Some("deleted event bypassed workspace fallback"@)
        } else {
            None
        },
        WorkspaceUpdate::Session(SessionUpdate::Deleted { .. }) => Some(
            "deleted update bypassed workspace fallback"@,
        ),
        _ => None,
    }
}

/// What an update of the chat does to the screen. `projection` is the chat after it.
pub open spec fn updated(
    ui: UiView,
    projection: ProjectionView,
    update: WorkspaceUpdate,
) -> UiView {
    match update {
        WorkspaceUpdate::Warning(warning) => ui.with_notice(warning@),
        WorkspaceUpdate::Deleted { .. } => ui.for_another_chat(),
        WorkspaceUpdate::Session(SessionUpdate::SnapshotReplaced(_)) => with_fitting_menu(
            ui.authoritative(),
            projection,
        ),
        WorkspaceUpdate::Session(SessionUpdate::Warning(warning)) => ui.with_notice(warning@),
        WorkspaceUpdate::Session(SessionUpdate::Event(envelope)) => match envelope.event {
            SessionEvent::Started { .. } | SessionEvent::Completed { .. }
            | SessionEvent::Failed { .. } | SessionEvent::Cancelled { .. }
            | SessionEvent::PersistenceWarning(_) => ui.without_error(),
            SessionEvent::SettingsChanged { .. } | SessionEvent::CatalogChanged(_) => {
                with_fitting_menu(ui.without_error(), projection)
            },
            SessionEvent::JobsChanged(_) => if ui.menu.kind == Some(MenuKind::Processes) {
                with_fitting_menu(ui, projection)
            } else {
                ui.redrawn()
            },
            _ => ui.redrawn(),
        },
        WorkspaceUpdate::Session(SessionUpdate::Deleted { .. }) => ui.redrawn(),
    }
}

/// Shows an update of the chat, or says why it must not reach the screen.
pub fn consume_workspace_update(
    ui: &mut UiState,
    projection: &ChatProjection,
    update: &WorkspaceUpdate,
) -> (result: Result<(), &'static str>)
    requires
        old(ui).state().wf(),
    ensures
        match result {
            Ok(()) => update_error(*update) is None && final(ui).state() == updated(
                old(ui).state(),
                projection.deep_view(),
                *update,
            ),
            Err(message) => update_error(*update) == Some(message@) && final(ui).state() == old(ui).state(),
        },
        final(ui).state().wf(),
{
    match update {
        WorkspaceUpdate::Warning(warning) => ui.push_notice(warning),
        WorkspaceUpdate::Deleted { .. } => ui.chat_transition_reset(),
        WorkspaceUpdate::Session(SessionUpdate::SnapshotReplaced(_)) => {
            ui.authoritative_reset();
            refresh_menu(ui, projection);
        },
        WorkspaceUpdate::Session(SessionUpdate::Warning(warning)) => ui.push_notice(warning),
        WorkspaceUpdate::Session(SessionUpdate::Event(envelope)) => match &envelope.event {
            SessionEvent::Deleted { .. } => {
                return Err("deleted event bypassed workspace fallback");
            },
            SessionEvent::Started { .. } | SessionEvent::Completed { .. }
            | SessionEvent::Failed { .. } | SessionEvent::Cancelled { .. }
            | SessionEvent::PersistenceWarning(_) => ui.clear_local_error(),
            SessionEvent::SettingsChanged { .. } | SessionEvent::CatalogChanged(_) => {
                ui.clear_local_error();
                refresh_menu(ui, projection);
            },
            SessionEvent::JobsChanged(_) => {
                if let Some(MenuKind::Processes) = ui.menu().kind() {
                    refresh_menu(ui, projection);
                }
            },
            _ => {},
        },
        WorkspaceUpdate::Session(SessionUpdate::Deleted { .. }) => {
            return Err("deleted update bypassed workspace fallback");
        },
    }
    ui.request_redraw();
    Ok(())
}

/// The sessions that the browser has to be refreshed with, and the directory they are shown from.
pub fn session_browser_scope(ui: &UiState, projection: &ChatProjection) -> (scope: (
    Vec<u8>,
    SessionListScope,
))
    ensures
        scope.0@ == projection.deep_view().cwd(),
        match ui.state().browser.mode {
            BrowserMode::Project => scope.1 is Project && scope.1->Project_0@
                == projection.deep_view().cwd(),
            BrowserMode::Global => scope.1 is All,
        },
{
    let cwd = duplicate_bytes(projection.cwd());
    let scope = match ui.session_browser().mode() {
        BrowserMode::Project => SessionListScope::Project(duplicate_bytes(&cwd)),
        BrowserMode::Global => SessionListScope::All,
    };
    (cwd, scope)
}

/// Shows refreshed sessions, or why the refresh failed: the last good rows stay.
pub fn finish_session_browser_refresh(
    ui: &mut UiState,
    cwd: &Vec<u8>,
    result: Result<Vec<SessionSummary>, ClientSessionError>,
)
    requires
        old(ui).state().wf(),
    ensures
        final(ui).state() == (UiView {
            browser: match result {
                Ok(sessions) => old(ui).state().browser.with_sessions(cwd@, sessions.deep_view()),
                Err(error) => BrowserView {
                    refresh_warning: Some(sanitized_line(error.message@)),
                    ..old(ui).state().browser
                },
            },
            ..old(ui).state()
        }).redrawn(),
        final(ui).state().wf(),
{
    match result {
        Ok(sessions) => ui.session_browser_mut().set_sessions(cwd, sessions),
        Err(error) => {
            let line = sanitize_line(&error.message);
            ui.session_browser_mut().set_refresh_warning(line);
        },
    }
    ui.request_redraw();
}

/// The milliseconds between two refreshes of an open browser.
pub const BROWSER_REFRESH_MILLISECONDS: u64 = 1000;

/// The milliseconds that an idle screen waits for input.
pub const FRAME_MILLISECONDS: u64 = 16;

/// How long to wait for input: not at all during a run.
pub fn poll_milliseconds(projection: &ChatProjection) -> (milliseconds: u64)
    ensures
        milliseconds == if projection.deep_view().is_busy() {
            0
        } else {
            FRAME_MILLISECONDS
        },
{
    if projection.is_busy() {
        0
    } else {
        FRAME_MILLISECONDS
    }
}

/// When the open browser is refreshed next. Instants are milliseconds of one clock.
#[derive(Clone, Copy, Debug, PartialEq, Eq, Structural)]
pub struct RefreshSchedule {
    pub next_due: Option<u64>,
    pub pending: bool,
}

/// What to do with the refresh of the browser.
#[derive(Clone, Copy, Debug, PartialEq, Eq, Structural)]
pub enum RefreshStep {
    /// Leave it as it is.
    Keep,
    /// Drop a refresh in progress.
    Drop,
    /// Start a refresh in place of one in progress.
    Start,
}

impl RefreshSchedule {
    /// The schedule and the step at an instant.
    pub open spec fn planned(self, open: bool, requested: bool, now: u64) -> (
        RefreshSchedule,
        RefreshStep,
    ) {
        let later = (now + BROWSER_REFRESH_MILLISECONDS) as u64;
        let due = match self.next_due {
            Some(due) => due,
            None => later,
        };
        if !open {
            (RefreshSchedule { next_due: None, pending: false }, RefreshStep::Drop)
        } else if requested || !self.pending && now >= due {
            (RefreshSchedule { next_due: Some(later), pending: true }, RefreshStep::Start)
        } else {
            (RefreshSchedule { next_due: Some(due), pending: self.pending }, RefreshStep::Keep)
        }
    }

    /// No refresh planned.
    pub fn new() -> (schedule: Self)
        ensures
            schedule == (RefreshSchedule { next_due: None, pending: false }),
    {
        RefreshSchedule { next_due: None, pending: false }
    }

    /// Decides what to do at an instant: an open browser is refreshed on request and once a
    /// second, one refresh at a time.
    pub fn plan(&mut self, open: bool, requested: bool, now: u64) -> (step: RefreshStep)
        requires
            now <= u64::MAX - BROWSER_REFRESH_MILLISECONDS,
        ensures
            (*final(self), step) == old(self).planned(open, requested, now),
    {
        if !open {
            self.next_due = None;
            self.pending = false;
            return RefreshStep::Drop;
        }
        let later: u64 = now + BROWSER_REFRESH_MILLISECONDS;
        let due: u64 = match self.next_due {
            Some(due) => due,
            None => later,
        };
        if requested || !self.pending && now >= due {
            self.next_due = Some(later);
            self.pending = true;
            return RefreshStep::Start;
        }
        self.next_due = Some(due);
        RefreshStep::Keep
    }

    /// Records that the refresh in progress ended.
    pub fn finish(&mut self)
        ensures
            *final(self) == (RefreshSchedule { pending: false, ..*old(self) }),
    {
        self.pending = false;
    }
}

/// How an application ended that did not end well.
#[derive(Debug)]
pub enum ApplicationFailure<A, C> {
    Application(A),
    Cleanup(C),
    ApplicationAndCleanup { application: A, cleanup: C },
}

impl ApplicationFailure<String, String> {
    /// The description of a failure.
    pub open spec fn description(self) -> Seq<char> {
        match self {
            ApplicationFailure::Application(application) => application@,
            ApplicationFailure::Cleanup(cleanup) => cleanup@,
            ApplicationFailure::ApplicationAndCleanup { application, cleanup } => application@
                + "; terminal cleanup also failed: "@ + cleanup@,
        }
    }

    /// Describes the failure.
    pub fn message(&self) -> (text: String)
        ensures
            text@ == self.description(),
    {
        match self {
            ApplicationFailure::Application(application) => application.clone(),
            ApplicationFailure::Cleanup(cleanup) => cleanup.clone(),
            ApplicationFailure::ApplicationAndCleanup { application, cleanup } => {
                let mut text = application.clone();
                text.push_str("; terminal cleanup also failed: ");
                text.push_str(cleanup);
                text
            },
        }
    }
}

/// Combines the end of an application with that of the terminal's restoration; neither error is
/// lost.
pub fn restore_after_application<A, C>(application: Result<(), A>, cleanup: Result<(), C>) -> (result:
    Result<(), ApplicationFailure<A, C>>)
    ensures
        result == match (application, cleanup) {
            (Ok(_), Ok(_)) => Ok::<(), ApplicationFailure<A, C>>(()),
            (Err(application), Ok(_)) => Err(ApplicationFailure::Application(application)),
            (Ok(_), Err(cleanup)) => Err(ApplicationFailure::Cleanup(cleanup)),
            (Err(application), Err(cleanup)) => Err(
                ApplicationFailure::ApplicationAndCleanup { application, cleanup },
            ),
        },
{
    match (application, cleanup) {
        (Ok(_), Ok(_)) => Ok(()),
        (Err(application), Ok(_)) => Err(ApplicationFailure::Application(application)),
        (Ok(_), Err(cleanup)) => Err(ApplicationFailure::Cleanup(cleanup)),
        (Err(application), Err(cleanup)) => Err(
            ApplicationFailure::ApplicationAndCleanup { application, cleanup },
        ),
    }
}

/// A failed switch leaves the chat and the browser as they were, but for the error that it shows.
pub proof fn lemma_failed_switch_keeps_the_chat(
    ui: UiView,
    projection: ProjectionView,
    id: SessionId,
    message: Seq<char>,
)
    ensures
        finished(ui, projection, Request::Switch(id), Some(message)) == (UiView {
            browser: BrowserView { action_error: Some(sanitized_line(message)), ..ui.browser },
            ..ui
        }),
{
}

/// A prompt that could not make a draft durable is still there.
pub proof fn lemma_failed_first_prompt_is_kept(
    ui: UiView,
    projection: ProjectionView,
    text: Seq<char>,
    message: Seq<char>,
)
    ensures
        finished(
            ui,
            projection,
            Request::Submit { text, draft: true },
            Some(message),
        ).editor.value == editor_text(text),
{
}

proof fn lemma_word_is_first(text: Seq<char>, word: Seq<char>)
    requires
        text == word || word.push(' ').is_prefix_of(text),
        forall|i: int| 0 <= i < word.len() ==> !is_whitespace(#[trigger] word[i]),
    ensures
        first_word(text) == word,
{
    if text != word {
        let spaced = word.push(' ');
        assert(text.take(spaced.len() as int) =~= spaced);
        assert forall|i: int| 0 <= i <= word.len() implies text[i] == spaced[i] by {
            assert(text.take(spaced.len() as int)[i] == text[i]);
        }
        assert(is_whitespace(text[word.len() as int]));
    }
    assert forall|i: int| 0 <= i < word.len() implies !is_whitespace(#[trigger] text[i]) by {
        assert(text[i] == word[i]);
    }
    lemma_first_word(text, word.len() as int);
    assert(text.take(word.len() as int) =~= word);
}

/// A text is a command of its first word.
pub open spec fn is_command_word(word: Seq<char>) -> bool {
    word == "/exit"@ || exists|i: int| 0 <= i < COMMAND_COUNT && (#[trigger] command(i)).0 == word
}

/// Input that begins with no command is submitted as it is, slash or not.
pub proof fn lemma_other_input_is_submitted(projection: ProjectionView, text: Seq<char>)
    requires
        !is_command_word(first_word(trim(text))),
    ensures
        typed_action(projection, text) == AppAction::Submit(text),
{
    let trimmed = trim(text);
    reveal_strlit("/quit");
    reveal_strlit("/exit");
    reveal_strlit("/cancel");
    reveal_strlit("/new");
    reveal_strlit("/sessions");
    reveal_strlit("/model");
    reveal_strlit("/model ");
    reveal_strlit("/effort");
    reveal_strlit("/effort ");
    reveal_strlit("/ps");
    reveal_strlit("/kill");
    reveal_strlit("/kill ");
    assert("/model "@ =~= "/model"@.push(' '));
    assert("/effort "@ =~= "/effort"@.push(' '));
    assert("/kill "@ =~= "/kill"@.push(' '));
    assert(command(0).0 == "/quit"@ && command(1).0 == "/cancel"@ && command(2).0 == "/model"@);
    assert(command(3).0 == "/effort"@ && command(4).0 == "/ps"@ && command(5).0 == "/kill"@);
    assert(command(6).0 == "/new"@ && command(7).0 == "/sessions"@);
    if trimmed == "/quit"@ {
        lemma_word_is_first(trimmed, "/quit"@);
    } else if trimmed == "/exit"@ {
        lemma_word_is_first(trimmed, "/exit"@);
    } else if trimmed == "/cancel"@ {
        lemma_word_is_first(trimmed, "/cancel"@);
    } else if trimmed == "/new"@ {
        lemma_word_is_first(trimmed, "/new"@);
    } else if trimmed == "/sessions"@ {
        lemma_word_is_first(trimmed, "/sessions"@);
    } else if trimmed == "/ps"@ {
        lemma_word_is_first(trimmed, "/ps"@);
    } else if trimmed == "/model"@ || after_prefix(trimmed, "/model "@) is Some {
        lemma_word_is_first(trimmed, "/model"@);
    } else if trimmed == "/effort"@ || after_prefix(trimmed, "/effort "@) is Some {
        lemma_word_is_first(trimmed, "/effort"@);
    } else if trimmed == "/kill"@ || after_prefix(trimmed, "/kill "@) is Some {
        lemma_word_is_first(trimmed, "/kill"@);
    }
}

proof fn lemma_best_model_is_found(query: Seq<char>, models: Seq<ModelView>)
    ensures
        match best_model(query, models) {
            Some(model) => {
                &&& models.contains(model)
                &&& model_score(query, model) is Some
                &&& forall|i: int|
                    0 <= i < models.len() ==> match model_score(query, #[trigger] models[i]) {
                        Some(score) => score <= model_score(query, model)->0,
                        None => true,
                    }
            },
            None => forall|i: int|
                0 <= i < models.len() ==> model_score(query, #[trigger] models[i]) is None,
        },
    decreases models.len(),
{
    if models.len() > 0 {
        let shorter = models.drop_last();
        lemma_best_model_is_found(query, shorter);
        assert(forall|i: int| 0 <= i < shorter.len() ==> shorter[i] == #[trigger] models[i]);
        if let Some(model) = best_model(query, shorter) {
            let k = choose|k: int| 0 <= k < shorter.len() && shorter[k] == model;
            assert(models[k] == model);
        }
        assert(models[models.len() - 1] == models.last());
    }
}

/// A query means a model that it finds by identifier or name, and none that another one beats: the
/// same identifier or name beats every other. It means none where it finds none, or where nothing
/// of it counts.
pub proof fn lemma_queries_mean_what_they_find(query: Seq<char>, models: Seq<ModelView>)
    ensures
        match meant_model(query, models) {
            Some(model) => {
                let asked = normalized(query);
                let by_id = fuzzy_score(asked, normalized(model.id));
                let by_name = fuzzy_score(asked, normalized(model.display_name));
                &&& asked.len() > 0
                &&& models.contains(model)
                &&& by_id is Some || by_name is Some
                &&& forall|i: int|
                    #![trigger models[i]]
                    0 <= i < models.len() ==> {
                        let other = fuzzy_score(asked, normalized(models[i].id));
                        let named = fuzzy_score(asked, normalized(models[i].display_name));
                        &&& other is Some ==> by_id is Some && other->0 <= by_id->0
                            || by_name is Some && other->0 <= by_name->0
                        &&& named is Some ==> by_id is Some && named->0 <= by_id->0
                            || by_name is Some && named->0 <= by_name->0
                    }
            },
            None => normalized(query).len() == 0 || forall|i: int|
                #![trigger models[i]]
                0 <= i < models.len() ==> fuzzy_score(
                    normalized(query),
                    normalized(models[i].id),
                ) is None && fuzzy_score(
                    normalized(query),
                    normalized(models[i].display_name),
                ) is None,
        },
{
    lemma_best_model_is_found(normalized(query), models);
    let asked = normalized(query);
    match meant_model(query, models) {
        Some(model) => {
            assert forall|i: int| #![trigger models[i]] 0 <= i < models.len() implies {
                let by_id = fuzzy_score(asked, normalized(model.id));
                let by_name = fuzzy_score(asked, normalized(model.display_name));
                let other = fuzzy_score(asked, normalized(models[i].id));
                let named = fuzzy_score(asked, normalized(models[i].display_name));
                &&& other is Some ==> by_id is Some && other->0 <= by_id->0 || by_name is Some
                    && other->0 <= by_name->0
                &&& named is Some ==> by_id is Some && named->0 <= by_id->0 || by_name is Some
                    && named->0 <= by_name->0
            } by {
                assert(model_score(asked, models[i]) is Some ==> model_score(asked, models[i])->0
                    <= model_score(asked, model)->0);
            }
        },
        None => {
            assert forall|i: int|
                #![trigger models[i]]
                0 <= i < models.len() && asked.len() > 0 implies fuzzy_score(
                asked,
                normalized(models[i].id),
            ) is None && fuzzy_score(asked, normalized(models[i].display_name)) is None by {
                assert(model_score(asked, models[i]) is None);
            }
        },
    }
}

proof fn lemma_placing_adds_the_model(list: Seq<(usize, ModelView)>, item: (usize, ModelView))
    ensures
        model_placed(list, item).to_multiset() == list.push(item).to_multiset(),
    decreases list.len(),
{
    broadcast use vstd::seq_lib::group_to_multiset_ensures;

    if list.len() > 0 && list.last().0 < item.0 {
        lemma_placing_adds_the_model(list.drop_last(), item);
        assert(list.drop_last().push(list.last()) =~= list);
        assert(model_placed(list, item).to_multiset() =~= list.push(item).to_multiset());
    }
}

/// The models in the selector are those that the query finds, each once for each time it is in the
/// catalog; a query of which nothing counts shows the whole catalog in its order.
pub proof fn lemma_the_selector_shows_what_is_found(
    query: Seq<char>,
    models: Seq<ModelView>,
    model: ModelView,
)
    ensures
        normalized(query).len() == 0 ==> found_models(query, models) == models,
        normalized(query).len() > 0 ==> found_models(query, models).contains(model) == (
        models.contains(model) && (fuzzy_score(normalized(query), normalized(model.id)) is Some
            || fuzzy_score(normalized(query), normalized(model.display_name)) is Some)),
{
    let asked = normalized(query);
    let scored = scored_models(asked, models);
    lemma_scored_models_are_found(asked, models);
    if asked.len() > 0 {
        let found = found_models(query, models);
        if found.contains(model) {
            let k = choose|k: int| 0 <= k < found.len() && found[k] == model;
            assert(scored.contains(scored[k]));
        }
        if models.contains(model) && model_score(asked, model) is Some {
            let item = (model_score(asked, model)->0, model);
            assert(scored.contains(item));
            let k = choose|k: int| 0 <= k < scored.len() && scored[k] == item;
            assert(found[k] == model);
        }
    }
}

proof fn lemma_scored_models_are_found(query: Seq<char>, models: Seq<ModelView>)
    ensures
        forall|item: (usize, ModelView)| #[trigger]
            scored_models(query, models).contains(item) <==> models.contains(item.1) && model_score(
                query,
                item.1,
            ) == Some(item.0),
    decreases models.len(),
{
    broadcast use vstd::seq_lib::group_to_multiset_ensures;

    let scored = scored_models(query, models);
    if models.len() > 0 {
        let shorter = models.drop_last();
        let before = scored_models(query, shorter);
        lemma_scored_models_are_found(query, shorter);
        assert forall|model: ModelView| #[trigger] models.contains(model) <==> shorter.contains(
            model,
        ) || model == models.last() by {
            if shorter.contains(model) {
                let k = choose|k: int| 0 <= k < shorter.len() && shorter[k] == model;
                assert(models[k] == model);
            }
            if models.contains(model) && model != models.last() {
                let k = choose|k: int| 0 <= k < models.len() && models[k] == model;
                assert(shorter[k] == model);
            }
            assert(models[models.len() - 1] == models.last());
        }
        if let Some(score) = model_score(query, models.last()) {
            let item = (score, models.last());
            lemma_placing_adds_the_model(before, item);
            assert forall|other: (usize, ModelView)| #[trigger] scored.contains(other)
                <==> before.contains(other) || other == item by {
                assert(scored.contains(other) <==> scored.to_multiset().count(other) > 0);
                assert(before.push(item).contains(other) <==> before.push(
                    item,
                ).to_multiset().count(other) > 0);
                if before.contains(other) {
                    let k = choose|k: int| 0 <= k < before.len() && before[k] == other;
                    assert(before.push(item)[k] == other);
                }
                if before.push(item).contains(other) && other != item {
                    let k = choose|k: int|
                        0 <= k < before.push(item).len() && before.push(item)[k] == other;
                    assert(before[k] == other);
                }
                assert(before.push(item)[before.len() as int] == item);
            }
        }
    }
}

/// The efforts on offer are those of the first catalog model with the identifier in use, and none
/// where the catalog does not list it.
pub proof fn lemma_efforts_are_those_of_the_model(
    models: Seq<ModelView>,
    id: Seq<char>,
    index: int,
)
    ensures
        0 <= index < models.len() && models[index].id == id && (forall|i: int|
            0 <= i < index ==> (#[trigger] models[i]).id != id) ==> model_efforts(models, id)
            == models[index].reasoning_efforts,
        (forall|i: int| 0 <= i < models.len() ==> (#[trigger] models[i]).id != id)
            ==> model_efforts(models, id).len() == 0,
    decreases models.len(),
{
    if models.len() > 0 && models[0].id != id {
        let rest = models.drop_first();
        assert(forall|i: int| 0 <= i < rest.len() ==> rest[i] == #[trigger] models[i + 1]);
        lemma_efforts_are_those_of_the_model(rest, id, index - 1);
        if 0 < index < models.len() && models[index].id == id && (forall|i: int|
            0 <= i < index ==> (#[trigger] models[i]).id != id) {
            assert(rest[index - 1] == models[index]);
            assert forall|i: int| 0 <= i < index - 1 implies (#[trigger] rest[i]).id != id by {
                assert(rest[i] == models[i + 1]);
            }
        }
        if forall|i: int| 0 <= i < models.len() ==> (#[trigger] models[i]).id != id {
            assert forall|i: int| 0 <= i < rest.len() implies (#[trigger] rest[i]).id != id by {
                assert(rest[i] == models[i + 1]);
            }
        }
    }
}

proof fn lemma_level_place_is_first(
    levels: Seq<ReasoningLevel>,
    level: ReasoningLevel,
    from: int,
    place: int,
)
    requires
        0 <= from <= place < levels.len(),
        levels[place] == level,
        forall|i: int| from <= i < place ==> levels[i] != level,
    ensures
        level_place(levels, level, from) == place,
    decreases place - from,
{
    if from < place {
        lemma_level_place_is_first(levels, level, from + 1, place);
    }
}

proof fn lemma_level_without_place(levels: Seq<ReasoningLevel>, level: ReasoningLevel, from: int)
    requires
        0 <= from <= levels.len(),
        forall|i: int| from <= i < levels.len() ==> levels[i] != level,
    ensures
        level_place(levels, level, from) == levels.len(),
    decreases levels.len() - from,
{
    if from < levels.len() {
        lemma_level_without_place(levels, level, from + 1);
    }
}

/// Cycling asks for the effort that follows the current one and for the first after the last; an
/// effort that the model does not support has none after it.
pub proof fn lemma_cycling_goes_through_the_efforts(
    ui: UiView,
    projection: ProjectionView,
    place: int,
)
    ensures
        0 <= place < efforts(projection).len() && efforts(projection)[place]
            == projection.settings().reasoning && (forall|i: int|
            0 <= i < place ==> efforts(projection)[i] != projection.settings().reasoning)
            ==> begun(ui, projection, AppAction::CycleEffort) == (ui, AppStep::<Seq<char>>::Ask(
            Request::SelectReasoning {
                level: efforts(projection)[if place + 1 < efforts(projection).len() {
                    place + 1
                } else {
                    0
                }],
                draft: projection is Draft,
            },
        )),
        !efforts(projection).contains(projection.settings().reasoning) ==> begun(
            ui,
            projection,
            AppAction::CycleEffort,
        ) == (ui, AppStep::<Seq<char>>::Continue),
{
    reveal(begun);
    let levels = efforts(projection);
    let level = projection.settings().reasoning;
    if 0 <= place < levels.len() && levels[place] == level && (forall|i: int|
        0 <= i < place ==> levels[i] != level) {
        lemma_level_place_is_first(levels, level, 0, place);
    }
    if !levels.contains(level) {
        assert forall|i: int| 0 <= i < levels.len() implies levels[i] != level by {
            assert(levels.contains(levels[i]));
        }
        lemma_level_without_place(levels, level, 0);
    }
}

/// An effort is asked for by its name, and only where the model in use supports it.
pub proof fn lemma_only_supported_efforts_are_meant(projection: ProjectionView, name: Seq<char>)
    ensures
        match meant_effort(projection, name) {
            Some(level) => efforts(projection).contains(level) && reasoning_of(name) == Some(level),
            None => reasoning_of(name) is None || !efforts(projection).contains(
                reasoning_of(name)->0,
            ),
        },
{
}

proof fn lemma_trimmed_words(word: Seq<char>)
    requires
        word.len() > 0,
        !is_whitespace(word[0]),
        !is_whitespace(word.last()),
    ensures
        trim(word) == word,
{
}

/// Blanks around a command do not count, what follows it is its argument, and a command that takes
/// none refuses one.
pub proof fn lemma_commands_take_their_arguments(
    projection: ProjectionView,
    text: Seq<char>,
    argument: Seq<char>,
)
    ensures
        trim(text) == "/quit"@ || trim(text) == "/exit"@ ==> typed_action(projection, text)
            == AppAction::<Seq<char>>::Exit,
        trim(text) == "/cancel"@ ==> typed_action(projection, text)
            == AppAction::<Seq<char>>::Cancel,
        trim(text) == "/new"@ ==> typed_action(projection, text)
            == AppAction::<Seq<char>>::NewDraft,
        trim(text) == "/new "@ + argument ==> typed_action(projection, text)
            == AppAction::<Seq<char>>::NewUsage,
        trim(text) == "/sessions"@ ==> typed_action(projection, text)
            == AppAction::<Seq<char>>::OpenSessionBrowser,
        trim(text) == "/model"@ ==> typed_action(projection, text)
            == AppAction::<Seq<char>>::OpenModelSelector,
        trim(text) == "/effort"@ ==> typed_action(projection, text)
            == AppAction::<Seq<char>>::OpenEffortSelector,
        trim(text) == "/ps"@ ==> typed_action(projection, text)
            == AppAction::<Seq<char>>::OpenProcessSelector,
        trim(text) == "/kill"@ ==> typed_action(projection, text)
            == AppAction::<Seq<char>>::KillUsage,
        trim(text) == "/kill "@ + argument ==> typed_action(projection, text) == AppAction::Kill(
            trim(argument),
        ),
        trim(text) == "/model "@ + argument ==> typed_action(projection, text) == match meant_model(
            trim(argument),
            catalog_models(projection.catalog()),
        ) {
            Some(model) => AppAction::SelectModel(model.id),
            None => AppAction::ModelNotFound(trim(argument)),
        },
        trim(text) == "/effort "@ + argument ==> typed_action(projection, text)
            == match meant_effort(projection, trim(argument)) {
            Some(level) => AppAction::SelectEffort(level),
            None => AppAction::EffortNotFound(trim(argument)),
        },
{
    reveal_strlit("/quit");
    reveal_strlit("/exit");
    reveal_strlit("/cancel");
    reveal_strlit("/new");
    reveal_strlit("/new ");
    reveal_strlit("/sessions");
    reveal_strlit("/model");
    reveal_strlit("/model ");
    reveal_strlit("/effort");
    reveal_strlit("/effort ");
    reveal_strlit("/ps");
    reveal_strlit("/kill");
    reveal_strlit("/kill ");
    let trimmed = trim(text);
    assert("/quit"@[1] == 'q' && "/exit"@[1] == 'e' && "/cancel"@[1] == 'c' && "/new"@[1] == 'n'
        && "/sessions"@[1] == 's' && "/model"@[1] == 'm' && "/effort"@[1] == 'e' && "/ps"@[1]
        == 'p' && "/kill"@[1] == 'k');
    assert("/exit"@[2] == 'x' && "/effort"@[2] == 'f');
    assert("/new "@ =~= "/new"@.push(' '));
    assert("/model "@ =~= "/model"@.push(' '));
    assert("/effort "@ =~= "/effort"@.push(' '));
    assert("/kill "@ =~= "/kill"@.push(' '));
    if trimmed == "/new "@ + argument {
        assert("/new "@.is_prefix_of(trimmed));
        lemma_word_is_first(trimmed, "/new"@);
        assert(trimmed[4] == ' ' && trimmed[1] == 'n');
    } else if trimmed == "/kill "@ + argument {
        crate::text::lemma_prefixes_are_taken_off(trimmed, "/kill "@, argument);
        lemma_word_is_first(trimmed, "/kill"@);
        assert(trimmed[5] == ' ' && trimmed[1] == 'k');
    } else if trimmed == "/model "@ + argument {
        crate::text::lemma_prefixes_are_taken_off(trimmed, "/model "@, argument);
        lemma_word_is_first(trimmed, "/model"@);
        assert(trimmed[6] == ' ' && trimmed[1] == 'm');
    } else if trimmed == "/effort "@ + argument {
        crate::text::lemma_prefixes_are_taken_off(trimmed, "/effort "@, argument);
        lemma_word_is_first(trimmed, "/effort"@);
        assert(trimmed[7] == ' ' && trimmed[1] == 'e' && trimmed[2] == 'f');
    } else if trimmed == "/sessions"@ {
        lemma_word_is_first(trimmed, "/sessions"@);
    } else if trimmed == "/model"@ {
        lemma_word_is_first(trimmed, "/model"@);
    } else if trimmed == "/effort"@ {
        lemma_word_is_first(trimmed, "/effort"@);
        if "/model "@.is_prefix_of(trimmed) {
            assert(trimmed[1] == "/model "@[1]);
        }
    } else if trimmed == "/ps"@ {
        lemma_word_is_first(trimmed, "/ps"@);
    } else if trimmed == "/kill"@ {
        lemma_word_is_first(trimmed, "/kill"@);
    }
}

/// In a selector the text is looked for among what the selector offers, and what is not found is
/// told as it was typed; the process selector takes no text.
pub proof fn lemma_selectors_look_for_the_text(projection: ProjectionView, text: Seq<char>)
    ensures
        submitted_action(Some(MenuKind::Models), projection, text) == match meant_model(
            text,
            catalog_models(projection.catalog()),
        ) {
            Some(model) => AppAction::SelectModel(model.id),
            None => AppAction::ModelNotFound(text),
        },
        submitted_action(Some(MenuKind::Efforts), projection, text) == match meant_effort(
            projection,
            trim(text),
        ) {
            Some(level) => AppAction::SelectEffort(level),
            None => AppAction::EffortNotFound(text),
        },
        submitted_action(Some(MenuKind::Processes), projection, text) == AppAction::<
            Seq<char>,
        >::Nothing,
        submitted_action(Some(MenuKind::Commands), projection, text) == submitted_action(
            None,
            projection,
            text,
        ),
        !is_command_word(first_word(trim(text))) ==> submitted_action(None, projection, text)
            == AppAction::Submit(text),
{
    if !is_command_word(first_word(trim(text))) {
        lemma_other_input_is_submitted(projection, text);
    }
}

/// Choosing a command in the menu does what typing it does.
pub proof fn lemma_the_menu_does_what_typing_does(projection: ProjectionView, index: int)
    requires
        0 <= index < COMMAND_COUNT,
    ensures
        menu_command(command(index).0) == typed_action(projection, command(index).0),
        menu_command("/exit"@) == typed_action(projection, "/exit"@),
        !(menu_command(command(index).0) is Nothing),
{
    reveal_with_fuel(named_action, 9);
    reveal_strlit("/quit");
    reveal_strlit("/exit");
    reveal_strlit("/cancel");
    reveal_strlit("/new");
    reveal_strlit("/sessions");
    reveal_strlit("/model");
    reveal_strlit("/effort");
    reveal_strlit("/ps");
    reveal_strlit("/kill");
    let name = command(index).0;
    assert(name[0] == '/' && !is_whitespace(name[0]) && !is_whitespace(name.last()));
    lemma_trimmed_words(name);
    lemma_trimmed_words("/exit"@);
    lemma_commands_take_their_arguments(projection, name, Seq::empty());
    lemma_commands_take_their_arguments(projection, "/exit"@, Seq::empty());
    assert("/quit"@[1] == 'q' && "/exit"@[1] == 'e' && "/cancel"@[1] == 'c' && "/new"@[1] == 'n'
        && "/sessions"@[1] == 's' && "/model"@[1] == 'm' && "/effort"@[1] == 'e' && "/ps"@[1]
        == 'p' && "/kill"@[1] == 'k');
    assert("/exit"@[2] == 'x' && "/effort"@[2] == 'f');
}

/// The process selector lists the running jobs in their order, and no other job.
pub proof fn lemma_only_running_jobs_are_offered(jobs: Seq<JobView>, job: JobView)
    ensures
        job.state == JobState::Running ==> job_items(jobs.push(job)) == job_items(jobs).push(
            ItemView { value: sanitized_line(job.id), description: sanitized_line(job.title) },
        ),
        job.state != JobState::Running ==> job_items(jobs.push(job)) == job_items(jobs),
        job_items(Seq::empty()).len() == 0,
{
    assert(jobs.push(job).drop_last() =~= jobs);
}

/// The effort selector lists the supported efforts that the query finds, in their order.
pub proof fn lemma_supported_efforts_are_offered(
    levels: Seq<ReasoningLevel>,
    level: ReasoningLevel,
    query: Seq<char>,
)
    ensures
        query.len() == 0 || fuzzy_score(query, reasoning_name(level)) is Some ==> effort_items(
            levels.push(level),
            query,
        ).len() == effort_items(levels, query).len() + 1 && effort_items(
            levels.push(level),
            query,
        ).last().value == sanitized_line(reasoning_name(level)) && effort_items(
            levels.push(level),
            query,
        ).drop_last() == effort_items(levels, query),
        query.len() > 0 && fuzzy_score(query, reasoning_name(level)) is None ==> effort_items(
            levels.push(level),
            query,
        ) == effort_items(levels, query),
        effort_items(Seq::empty(), query).len() == 0,
{
    assert(levels.push(level).drop_last() =~= levels);
    let before = effort_items(levels, query);
    let item = menu_item(reasoning_name(level), "Supported by the active model"@);
    assert(before.push(item).drop_last() =~= before);
}

proof fn lemma_offered_commands_begin_so(value: Seq<char>, count: int, index: int)
    requires
        0 <= index < count <= COMMAND_COUNT,
    ensures
        value.is_prefix_of(offered_name(index, value)) ==> exists|i: int|
            0 <= i < command_items(value, count).len() && #[trigger] command_items(value, count)[i]
                == menu_item(offered_name(index, value), command(index).1),
    decreases count,
{
    let before = command_items(value, count - 1);
    if index < count - 1 {
        lemma_offered_commands_begin_so(value, count - 1, index);
        if value.is_prefix_of(offered_name(index, value)) {
            let i = choose|i: int|
                0 <= i < before.len() && #[trigger] before[i] == menu_item(
                    offered_name(index, value),
                    command(index).1,
                );
            assert(command_items(value, count)[i] == before[i]);
        }
    } else if value.is_prefix_of(offered_name(index, value)) {
        assert(command_items(value, count)[before.len() as int] == menu_item(
            offered_name(index, value),
            command(index).1,
        ));
    }
}

proof fn lemma_items_begin_so(value: Seq<char>, count: int)
    requires
        0 <= count <= COMMAND_COUNT,
    ensures
        forall|i: int|
            0 <= i < command_items(value, count).len() ==> exists|index: int|
                0 <= index < count && value.is_prefix_of(#[trigger] offered_name(index, value))
                    && #[trigger] command_items(value, count)[i] == menu_item(
                    offered_name(index, value),
                    command(index).1,
                ),
    decreases count,
{
    if count > 0 {
        lemma_items_begin_so(value, count - 1);
        let before = command_items(value, count - 1);
        let items = command_items(value, count);
        assert forall|i: int| 0 <= i < items.len() implies exists|index: int|
            0 <= index < count && value.is_prefix_of(#[trigger] offered_name(index, value))
                && #[trigger] items[i] == menu_item(
                offered_name(index, value),
                command(index).1,
            ) by {
            if i < before.len() {
                assert(items[i] == before[i]);
                let index = choose|index: int|
                    0 <= index < count - 1 && value.is_prefix_of(
                        #[trigger] offered_name(index, value),
                    ) && before[i] == menu_item(offered_name(index, value), command(index).1);
                assert(items[i] == menu_item(offered_name(index, value), command(index).1));
            } else {
                assert(items[i] == menu_item(offered_name(count - 1, value), command(count - 1).1));
            }
        }
    }
}

/// A slash and the letters after it offer every command whose name begins with them, and only
/// these; once a blank stands there, or without a slash, no command is offered.
pub proof fn lemma_commands_are_offered_by_their_beginning(
    value: Seq<char>,
    projection: ProjectionView,
    index: int,
)
    requires
        0 <= index < COMMAND_COUNT,
    ensures
        ({
            let menu = fitting_menu(None, value, projection);
            &&& value.len() == 0 || value[0] != '/' || (exists|i: int|
                0 <= i < value.len() && is_whitespace(#[trigger] value[i])) ==> menu.kind is None
                && menu.items.len() == 0
            &&& value.len() > 0 && value[0] == '/' && (forall|i: int|
                0 <= i < value.len() ==> !is_whitespace(#[trigger] value[i]))
                && value.is_prefix_of(command(index).0) && !"/e"@.is_prefix_of(value) ==> menu.kind
                == Some(MenuKind::Commands) && exists|i: int|
                0 <= i < menu.items.len() && (#[trigger] menu.items[i]).value == sanitized_line(
                    command(index).0,
                )
            &&& forall|i: int|
                0 <= i < menu.items.len() ==> exists|name: Seq<char>| #[trigger]
                    value.is_prefix_of(name) && (#[trigger] menu.items[i]).value == sanitized_line(
                        name,
                    )
            &&& fitting_menu(Some(MenuKind::Commands), value, projection) == menu
        }),
{
    reveal(fitting_menu);
    lemma_offered_commands_begin_so(value, COMMAND_COUNT as int, index);
    lemma_items_begin_so(value, COMMAND_COUNT as int);
    let items = command_items(value, COMMAND_COUNT as int);
    let menu = fitting_menu(None, value, projection);
    assert forall|i: int| 0 <= i < menu.items.len() implies exists|name: Seq<char>| #[trigger]
        value.is_prefix_of(name) && (#[trigger] menu.items[i]).value == sanitized_line(name) by {
        let index = choose|index: int|
            0 <= index < COMMAND_COUNT && value.is_prefix_of(#[trigger] offered_name(index, value))
                && items[i] == menu_item(offered_name(index, value), command(index).1);
        let name = offered_name(index, value);
        assert(value.is_prefix_of(name) && menu.items[i].value == sanitized_line(name));
    }
    if value.len() > 0 && value[0] == '/' && (forall|i: int|
        0 <= i < value.len() ==> !is_whitespace(#[trigger] value[i])) && value.is_prefix_of(
        command(index).0,
    ) && !"/e"@.is_prefix_of(value) {
        let i = choose|i: int|
            0 <= i < items.len() && #[trigger] items[i] == menu_item(
                offered_name(index, value),
                command(index).1,
            );
        assert(menu.items[i].value == sanitized_line(command(index).0));
    }
}

/// A selector stays open with what it has to offer for the text in the prompt.
pub proof fn lemma_selectors_stay_open(value: Seq<char>, projection: ProjectionView)
    ensures
        ({
            let menu = fitting_menu(Some(MenuKind::Models), value, projection);
            let found = found_models(value, catalog_models(projection.catalog()));
            &&& menu.kind == Some(MenuKind::Models) && menu.selected == 0 && menu.items.len()
                == found.len()
            &&& forall|i: int|
                0 <= i < found.len() ==> (#[trigger] menu.items[i]).value == sanitized_line(
                    found[i].id,
                ) && menu.items[i].description == sanitized_line(found[i].description)
        }),
        fitting_menu(Some(MenuKind::Efforts), value, projection).kind == Some(MenuKind::Efforts),
        fitting_menu(Some(MenuKind::Efforts), value, projection).items == effort_items(
            efforts(projection),
            normalized(value),
        ),
        fitting_menu(Some(MenuKind::Processes), value, projection).kind == Some(
            MenuKind::Processes,
        ),
        projection is Session ==> fitting_menu(
            Some(MenuKind::Processes),
            value,
            projection,
        ).items == job_items(projection->Session_0.jobs),
        projection is Draft ==> fitting_menu(
            Some(MenuKind::Processes),
            value,
            projection,
        ).items.len() == 0,
{
    reveal(fitting_menu);
}

/// What a prompt asks: nothing while a run is active or where a draft has nothing to say,
/// otherwise the very text, as the first of its chat where the chat is a draft.
pub proof fn lemma_prompts_ask_with_their_text(
    ui: UiView,
    projection: ProjectionView,
    text: Seq<char>,
)
    ensures
        ({
            let (after, step) = begun(ui, projection, AppAction::Submit(text));
            &&& projection is Draft && is_blank(text) ==> after == ui && step is Continue
            &&& !(projection is Draft && is_blank(text)) && projection.is_busy()
                ==> step is Continue && after.editor.value == editor_text(text) && after.notices
                == ui.notices
            &&& !(projection is Draft && is_blank(text)) && !projection.is_busy() ==> after == ui
                && step == AppStep::Ask(Request::Submit { text, draft: projection is Draft })
        }),
{
    reveal(begun);
}

/// Each command asks the backend for what it says, with the session, model, effort or job that it
/// names; where there is no session yet, none of its requests is made.
#[verifier::spinoff_prover]
#[verifier::rlimit(60)]
pub proof fn lemma_actions_ask_for_what_they_name(
    ui: UiView,
    projection: ProjectionView,
    id: SessionId,
    name: Seq<char>,
    level: ReasoningLevel,
)
    ensures
        begun(ui, projection, AppAction::NewDraft) == (ui, AppStep::<Seq<char>>::Ask(
            Request::NewDraft,
        )),
        begun(ui, projection, AppAction::SwitchSession(id)) == (ui, AppStep::<Seq<char>>::Ask(
            Request::Switch(id),
        )),
        begun(ui, projection, AppAction::DeleteSession(id)).0 == ui,
        begun(ui, projection, AppAction::DeleteSession(id)).1 is Ask,
        begun(ui, projection, AppAction::DeleteSession(id)).1->Ask_0 is Delete,
        begun(ui, projection, AppAction::DeleteSession(id)).1->Ask_0->Delete_session_id == id,
        begun(ui, projection, AppAction::DeleteSession(id)).1->Ask_0->Delete_current <==> projection
            is Session && projection->Session_0.summary.id == id,
        begun(ui, projection, AppAction::SelectModel(name)).1 == AppStep::Ask(
            Request::SelectModel { model: name, draft: projection is Draft },
        ),
        begun(ui, projection, AppAction::SelectModel(name)).0.editor.value.len() == 0,
        begun(ui, projection, AppAction::SelectEffort(level)).1 == AppStep::<Seq<char>>::Ask(
            Request::SelectReasoning { level, draft: projection is Draft },
        ),
        begun(ui, projection, AppAction::SelectEffort(level)).0.editor.value.len() == 0,
        projection is Session ==> {
            &&& begun(ui, projection, AppAction::Cancel) == (ui, AppStep::<Seq<char>>::Ask(
                Request::Cancel,
            ))
            &&& begun(ui, projection, AppAction::OpenProcessSelector) == (
                ui,
                AppStep::<Seq<char>>::Ask(Request::ListJobs),
            )
            &&& begun(ui, projection, AppAction::Kill(name)) == (
                ui,
                AppStep::Ask(Request::CancelJob(name)),
            )
            &&& begun(ui, projection, AppAction::KillUsage).0.local_error
        },
        projection is Draft ==> {
            &&& begun(ui, projection, AppAction::Cancel).1 is Continue
            &&& begun(ui, projection, AppAction::OpenProcessSelector).1 is Continue
            &&& begun(ui, projection, AppAction::Kill(name)).1 is Continue
            &&& begun(ui, projection, AppAction::KillUsage).1 is Continue
            &&& begun(ui, projection, AppAction::Cancel).0.notices.len() == ui.notices.len() + 1
            &&& begun(ui, projection, AppAction::Kill(name)).0.notices.len() == ui.notices.len() + 1
            &&& begun(ui, projection, AppAction::OpenProcessSelector).0.notices.len()
                == ui.notices.len() + 1
        },
        begun(ui, projection, AppAction::Exit) == (ui, AppStep::<Seq<char>>::Exit),
        begun(ui, projection, AppAction::Nothing) == (ui, AppStep::<Seq<char>>::Continue),
{
    reveal(begun);
}

/// A session is only renamed to a title that is one; another one is told in the dialog, which
/// stays with what was typed.
pub proof fn lemma_renames_need_a_valid_title(
    ui: UiView,
    projection: ProjectionView,
    id: SessionId,
    title: Seq<char>,
)
    ensures
        ({
            let (after, step) = begun(
                ui,
                projection,
                AppAction::RenameSession { session_id: id, title },
            );
            match label_of(title, 64) {
                Some(label) => after == ui && step == AppStep::Ask(
                    Request::Rename { session_id: id, title: label },
                ),
                None => {
                    &&& step is Continue
                    &&& ui.browser.layer is Rename ==> {
                        &&& after.browser.layer is Rename
                        &&& after.browser.layer->Rename_error is Some
                        &&& after.browser.layer->Rename_editor == ui.browser.layer->Rename_editor
                        &&& after.browser.layer->Rename_session_id
                            == ui.browser.layer->Rename_session_id
                    }
                    &&& !(ui.browser.layer is Rename) ==> after == ui
                },
            }
        }),
{
    reveal(begun);
}

/// Opening a selector, the help or the browser asks the backend for nothing and leaves the
/// transcript where it is. What is not found is told as an error, with what was looked for.
pub proof fn lemma_opening_asks_for_nothing(
    ui: UiView,
    projection: ProjectionView,
    query: Seq<char>,
    job: Seq<char>,
)
    ensures
        ({
            let (after, step) = begun(ui, projection, AppAction::OpenModelSelector);
            step is Continue && after.menu.kind == Some(MenuKind::Models)
                && after.editor.value.len() == 0 && after.scroll == ui.scroll
        }),
        ({
            let (after, step) = begun(ui, projection, AppAction::OpenEffortSelector);
            step is Continue && after.menu.kind == Some(MenuKind::Efforts)
                && after.editor.value.len() == 0 && after.scroll == ui.scroll
        }),
        ({
            let (after, step) = begun(ui, projection, AppAction::OpenHelp);
            step is Continue && after.popup is Some && after.editor == ui.editor
        }),
        ({
            let (after, step) = begun(ui, projection, AppAction::OpenSessionBrowser);
            step is Continue && after.browser.open && after.browser.refresh_requested
                && after.editor.value.len() == 0
        }),
        ({
            let (after, step) = begun(ui, projection, AppAction::ModelNotFound(query));
            step is Continue && after.local_error && after.notices == ui.notices.push(
                sanitized_line("No available model matches `"@ + sanitized_line(query) + "`."@),
            )
        }),
        ({
            let (after, step) = begun(ui, projection, AppAction::EffortNotFound(query));
            step is Continue && after.local_error && after.notices == ui.notices.push(
                sanitized_line(
                    "Reasoning effort `"@ + sanitized_line(query)
                        + "` is not supported by the active model."@,
                ),
            )
        }),
        ({
            let (after, step) = begun(ui, projection, AppAction::NewUsage);
            step is Continue && after.local_error && after.editor == ui.editor
                && after.notices.len() == ui.notices.len() + 1
        }),
        ({
            let (after, step) = begun(ui, projection, AppAction::PrepareKill(job));
            step is Continue && after.editor.value == editor_text("/kill "@ + job)
                && after.editor.cursor == after.editor.pieces().len()
        }),
{
    reveal(begun);
    reveal(fitting_menu);
}

/// What becomes of the screen when a request is answered: another chat begins anew; a failure is
/// told and changes nothing else, and the first prompt of a chat comes back.
pub proof fn lemma_answers_finish_their_request(
    ui: UiView,
    projection: ProjectionView,
    request: Request<Seq<char>>,
    message: Seq<char>,
)
    ensures
        ({
            let done = finished(ui, projection, request, None);
            let failed = finished(ui, projection, request, Some(message));
            let starts_over = match request {
                Request::Submit { draft, .. } => draft,
                Request::NewDraft => true,
                Request::Switch(_) => true,
                Request::Delete { current, .. } => current,
                _ => false,
            };
            let told_in_browser = request is Switch || request is Delete || request is Rename;
            &&& starts_over ==> !done.browser.open && done.editor.value.len() == 0
                && done.notices.len() == 0 && !done.local_error && done.scroll.auto_follow
            &&& !starts_over ==> done.editor == ui.editor && done.scroll == ui.scroll
                && done.notices == ui.notices && done.browser.open == ui.browser.open
            &&& !told_in_browser ==> failed.local_error && failed.notices == ui.notices.push(
                sanitized_line(message),
            )
            &&& told_in_browser ==> failed.notices == ui.notices && failed.local_error
                == ui.local_error && failed.editor == ui.editor && failed.browser.open
                == ui.browser.open && failed.browser.sessions == ui.browser.sessions
            &&& request is Switch || request is Delete ==> failed.browser.action_error == Some(
                sanitized_line(message),
            )
            &&& request is Rename && ui.browser.layer is Rename ==> failed.browser.layer is Rename
                && failed.browser.layer->Rename_error == Some(sanitized_line(message))
                && failed.browser.layer->Rename_editor == ui.browser.layer->Rename_editor
            &&& request is Rename && ui.browser.layer is Rename ==> done.browser.layer is List
                && done.browser.refresh_requested
            &&& !(request is Submit && request->Submit_draft) && !told_in_browser ==> failed.editor
                == ui.editor
            &&& (request is SelectModel && request->SelectModel_draft || request is SelectReasoning
                && request->SelectReasoning_draft) ==> !done.local_error
            &&& request is Delete && !request->Delete_current ==> done.browser.layer is List
                && done.browser.refresh_requested && done.browser.sessions
                == ui.browser.sessions.filter(
                |summary: crate::snapshot::SummaryView| summary.id != request->Delete_session_id,
            )
        }),
{
    if request is Delete {
        super::ui::session_browser::lemma_deleted_sessions_leave_the_list(
            ui.browser.sessions,
            request->Delete_session_id,
        );
    }
}

/// A cancelled job is told by its name, and one that had ended by how it had.
pub proof fn lemma_cancelled_jobs_are_told()
    ensures
        forall|ui: &mut UiState, job: &JobSnapshotDto, done: ()| #[trigger]
            call_ensures(finish_job_cancel, (ui, job), done) ==> {
                &&& final(ui).state().notices.len() == ui.state().notices.len() + 1
                &&& final(ui).state().local_error == ui.state().local_error
                &&& job.state == JobState::Cancelled ==> final(ui).state().notices.last()
                    == sanitized_line("Terminated "@ + job.id@ + "."@)
                &&& job.state == JobState::Running ==> final(ui).state().notices.last()
                    == sanitized_line(job.id@ + " is already "@ + "running"@ + "."@)
                &&& job.state == JobState::Completed ==> final(ui).state().notices.last()
                    == sanitized_line(job.id@ + " is already "@ + "completed"@ + "."@)
                &&& job.state == JobState::Failed ==> final(ui).state().notices.last()
                    == sanitized_line(job.id@ + " is already "@ + "failed"@ + "."@)
            },
{
}

/// The keys of the chat: the help, the sidebar, the selectors and the effort each have their own,
/// and the transcript is paged and wheeled. The selectors and the effort stay shut during a run.
pub proof fn lemma_keys_do_what_they_are_for(
    ui: UiView,
    projection: ProjectionView,
    key: KeyEvent,
)
    requires
        !ui.browser.open,
        key.kind != KeyEventKind::Release,
    ensures
        ({
            let (after, step) = handled(ui, projection, EventView::Key(key));
            let control = key.modifiers.control;
            let guarded = projection.is_busy() || ui.popup is Some || ui.menu.kind == Some(
                MenuKind::Processes,
            );
            &&& control && (key.code == KeyCode::Char('o') || key.code == KeyCode::Char('O')) ==> (
            after, step) == begun(ui, projection, AppAction::OpenHelp)
            &&& control && (key.code == KeyCode::Char('t') || key.code == KeyCode::Char('T')) ==> (
            after, step) == begun(ui, projection, AppAction::ToggleSidebar)
            &&& control && (key.code == KeyCode::Char('l') || key.code == KeyCode::Char('L'))
                && !guarded ==> (after, step) == begun(ui, projection, AppAction::OpenModelSelector)
            &&& control && (key.code == KeyCode::Char('r') || key.code == KeyCode::Char('R'))
                && !guarded ==> (after, step) == begun(
                ui,
                projection,
                AppAction::OpenEffortSelector,
            )
            &&& key.modifiers.shift && !control && !key.modifiers.alt && !key.modifiers.other && (
            key.code == KeyCode::Tab || key.code == KeyCode::BackTab) && !guarded ==> (after, step)
                == begun(ui, projection, AppAction::CycleEffort)
            &&& guarded && control && (key.code == KeyCode::Char('l') || key.code == KeyCode::Char(
                'L',
            ) || key.code == KeyCode::Char('r') || key.code == KeyCode::Char('R')) ==> after == ui
                && step is Continue
            &&& key.code == KeyCode::Esc && ui.popup is Some ==> after.popup is None
                && step is Continue && after.editor == ui.editor
            &&& key.code == KeyCode::PageUp ==> step is Continue && after.scroll == ui.scroll.up(
                ui.scroll.page(),
            ) && after.editor == ui.editor && after.menu == ui.menu
            &&& key.code == KeyCode::PageDown ==> step is Continue && after.scroll
                == ui.scroll.down(ui.scroll.page()) && after.editor == ui.editor && after.menu
                == ui.menu
        }),
{
}

/// The wheel moves the transcript by three rows, a change of size only draws again, and while the
/// browser is open it has the input.
pub proof fn lemma_other_events_go_where_they_belong(
    ui: UiView,
    projection: ProjectionView,
    width: u16,
    height: u16,
)
    ensures
        handled(ui, projection, EventView::Resize(width, height)) == (
            UiView { needs_redraw: true, ..ui },
            AppStep::<Seq<char>>::Continue,
        ),
        !ui.browser.open ==> {
            let (after, step) = handled(
                ui,
                projection,
                EventView::Mouse(MouseEventKind::ScrollUp),
            );
            step is Continue && after.scroll == ui.scroll.up(3) && after.editor == ui.editor
        },
        !ui.browser.open ==> {
            let (after, step) = handled(
                ui,
                projection,
                EventView::Mouse(MouseEventKind::ScrollDown),
            );
            step is Continue && after.scroll == ui.scroll.down(3) && after.editor == ui.editor
        },
        !ui.browser.open && ui.popup is Some ==> forall|text: Seq<char>|
            handled(ui, projection, EventView::Paste(text)) == (
                ui,
                AppStep::<Seq<char>>::Continue,
            ),
{
}

/// What the browser decides is what is asked for: the session that it switches to, renames or
/// deletes, and the rest of the screen stays.
pub proof fn lemma_the_browser_has_the_input(
    ui: UiView,
    projection: ProjectionView,
    event: EventView,
)
    requires
        ui.browser.open,
        !(event is Resize),
        event is Key ==> event->Key_0.kind != KeyEventKind::Release && !(
        event->Key_0.modifiers.control && (event->Key_0.code == KeyCode::Char('c')
            || event->Key_0.code == KeyCode::Char('C'))),
    ensures
        ({
            let (browser, action) = ui.browser.after(event);
            let (after, step) = handled(ui, projection, event);
            &&& after.editor == ui.editor && after.scroll == ui.scroll && after.menu == ui.menu
                && after.notices == ui.notices
            &&& action is Nothing || action is Refresh ==> step is Continue && after.browser
                == browser
            &&& action is Switch ==> step == AppStep::<Seq<char>>::Ask(
                Request::Switch(action->Switch_0),
            ) && after.browser == browser
            &&& action is Delete ==> step is Ask && step->Ask_0 is Delete
                && step->Ask_0->Delete_session_id == action->Delete_0 && after.browser == browser
            &&& action is Rename && label_of(action->Rename_title, 64) is Some ==> step
                == AppStep::Ask(
                Request::Rename {
                    session_id: action->Rename_session_id,
                    title: label_of(action->Rename_title, 64)->0,
                },
            )
        }),
{
    reveal(begun);
}

/// An open menu takes up, down, tab and enter: they move its selection, put the selected value in
/// the prompt, or do what the value stands for.
pub proof fn lemma_an_open_menu_takes_the_keys(
    ui: UiView,
    projection: ProjectionView,
    key: KeyEvent,
)
    requires
        ui.menu.kind is Some,
        0 <= ui.menu.selected < ui.menu.items.len(),
        !key.modifiers.shift && !key.modifiers.control && !key.modifiers.alt
            && !key.modifiers.other,
    ensures
        ({
            let done = menu_handled(ui, projection, key);
            let value = ui.menu.items[ui.menu.selected].value;
            &&& key.code == KeyCode::Down ==> done is Some && (done->0).1 is Continue && (
            done->0).0.menu == ui.menu.with_next() && (done->0).0.editor == ui.editor
            &&& key.code == KeyCode::Up ==> done is Some && (done->0).1 is Continue && (
            done->0).0.menu == ui.menu.with_previous() && (done->0).0.editor == ui.editor
            &&& key.code == KeyCode::Tab ==> done is Some && (done->0).1 is Continue && (
            done->0).0.editor.value == editor_text(value)
            &&& key.code == KeyCode::Enter && ui.menu.kind == Some(MenuKind::Models)
                ==> done is Some && (done->0).1 == AppStep::Ask(
                Request::SelectModel { model: value, draft: projection is Draft },
            )
            &&& key.code == KeyCode::Enter && ui.menu.kind == Some(MenuKind::Processes)
                ==> done is Some && (done->0).1 is Continue && (done->0).0.editor.value
                == editor_text("/kill "@ + value)
            &&& key.code == KeyCode::Enter && ui.menu.kind == Some(MenuKind::Efforts)
                && reasoning_of(value) is Some ==> done is Some && (done->0).1 == AppStep::<
                Seq<char>,
            >::Ask(
                Request::SelectReasoning {
                    level: reasoning_of(value)->0,
                    draft: projection is Draft,
                },
            )
            &&& key.code == KeyCode::Enter && ui.menu.kind == Some(MenuKind::Commands)
                ==> done == Some(begun(ui, projection, menu_command(value)))
            &&& key.code != KeyCode::Down && key.code != KeyCode::Up && key.code != KeyCode::Tab
                && key.code != KeyCode::Enter ==> done is None
        }),
{
    reveal(begun);
}

/// What reaches the prompt edits it, and what the prompt hands over is taken for what it means;
/// without a menu every key that is no shortcut reaches it.
pub proof fn lemma_typing_reaches_the_prompt(
    ui: UiView,
    projection: ProjectionView,
    event: EventView,
)
    ensures
        ({
            let (editor, outcome) = ui.editor.after(event);
            let (after, step) = prompt_handled(ui, projection, event);
            &&& !(outcome is Submitted) ==> step is Continue && after.editor == editor
                && after.scroll == ui.scroll && after.notices == ui.notices && after.browser
                == ui.browser
            &&& outcome is Changed ==> after.menu == fitting_menu(
                ui.menu.kind,
                editor.value,
                projection,
            ) && after.needs_redraw
            &&& outcome is Submitted ==> (after, step) == begun(
                UiView { editor, needs_redraw: true, ..ui },
                projection,
                submitted_action(ui.menu.kind, projection, outcome->Submitted_0),
            )
        }),
        !ui.browser.open && ui.popup is None && !ui.menu.is_open() && event is Key
            && event->Key_0.code is Char && event->Key_0.kind != KeyEventKind::Release
            && !event->Key_0.modifiers.control ==> handled(ui, projection, event) == prompt_handled(
            ui,
            projection,
            event,
        ),
        !ui.browser.open && ui.popup is None && event is Paste ==> handled(ui, projection, event)
            == prompt_handled(ui, projection, event),
{
}

/// What an update of the chat does to the screen: warnings are told, a run or new settings clear
/// the error, another chat begins anew, and nothing typed is lost in the same chat.
pub proof fn lemma_updates_show_on_the_screen()
    ensures
        forall|
            ui: &mut UiState,
            projection: &ChatProjection,
            update: &WorkspaceUpdate,
            result: Result<(), &'static str>,
        | #[trigger]
            call_ensures(consume_workspace_update, (ui, projection, update), result) ==> {
                let before = ui.state();
                let after = final(ui).state();
                &&& result is Err <==> update is Session && (update->Session_0 is Deleted
                    || update->Session_0 is Event && update->Session_0->Event_0.event is Deleted)
                &&& result is Err ==> after == before
                &&& update is Warning ==> after.notices == before.notices.push(
                    sanitized_line(update->Warning_0@),
                ) && after.editor == before.editor
                &&& update is Deleted ==> after.editor.value.len() == 0 && !after.browser.open
                    && after.notices.len() == 0
                &&& update is Session && update->Session_0 is SnapshotReplaced
                    ==> after.notices.len() == 0 && !after.local_error && after.popup is None
                    && after.editor == before.editor
                &&& update is Session && update->Session_0 is Warning ==> after.notices
                    == before.notices.push(sanitized_line(update->Session_0->Warning_0@))
                &&& update is Session && update->Session_0 is Event && result is Ok ==> {
                    let event = update->Session_0->Event_0.event;
                    &&& after.editor == before.editor && after.notices == before.notices
                        && after.scroll == before.scroll && after.browser == before.browser
                    &&& after.needs_redraw
                    &&& event is Started || event is Completed || event is Failed
                        || event is Cancelled || event is PersistenceWarning
                        || event is SettingsChanged || event is CatalogChanged
                        ==> !after.local_error
                    &&& event is AssistantDelta || event is JobsChanged ==> after.local_error
                        == before.local_error
                }
            },
{
}

/// The browser shows the sessions of the chat's own directory, or of all.
pub proof fn lemma_the_browser_looks_in_its_scope()
    ensures
        forall|ui: &UiState, projection: &ChatProjection, scope: (Vec<u8>, SessionListScope)|
         #[trigger]
            call_ensures(session_browser_scope, (ui, projection), scope) ==> {
                &&& scope.0@ == projection.deep_view().cwd()
                &&& ui.state().browser.mode == BrowserMode::Global <==> scope.1 is All
                &&& ui.state().browser.mode == BrowserMode::Project ==> scope.1 is Project
                    && scope.1->Project_0@ == projection.deep_view().cwd()
            },
        forall|
            ui: &mut UiState,
            cwd: &Vec<u8>,
            result: Result<Vec<SessionSummary>, ClientSessionError>,
            done: (),
        | #[trigger]
            call_ensures(finish_session_browser_refresh, (ui, cwd, result), done) ==> {
                let before = ui.state();
                let after = final(ui).state();
                &&& result is Ok ==> after.browser.sessions == result->Ok_0.deep_view()
                    && after.browser.current_cwd == cwd@ && after.browser.refresh_warning is None
                &&& result is Err ==> after.browser.sessions == before.browser.sessions
                    && after.browser.visible == before.browser.visible
                    && after.browser.refresh_warning == Some(
                    sanitized_line(result->Err_0.message@),
                )
                &&& after.editor == before.editor && after.notices == before.notices
            },
{
}

/// An open browser is refreshed at once on request and otherwise once a second, never twice at the
/// same time; a closed one drops what is under way.
pub proof fn lemma_the_browser_is_refreshed_every_second()
    ensures
        forall|
            schedule: &mut RefreshSchedule,
            open: bool,
            requested: bool,
            now: u64,
            step: RefreshStep,
        | #[trigger]
            call_ensures(RefreshSchedule::plan, (schedule, open, requested, now), step) && now
                <= u64::MAX - 1000 ==> {
                let after = *final(schedule);
                &&& !open ==> step is Drop && !after.pending && after.next_due is None
                &&& open && requested ==> step is Start
                &&& step is Start ==> open && after.pending && after.next_due == Some(
                    (now + 1000) as u64,
                )
                &&& open && !requested ==> (step is Start <==> !schedule.pending
                    && schedule.next_due is Some && schedule.next_due->0 <= now)
                &&& open && step is Keep ==> after.pending == schedule.pending && (
                schedule.next_due is Some ==> after.next_due == schedule.next_due) && (
                schedule.next_due is None ==> after.next_due == Some((now + 1000) as u64))
            },
        forall|schedule: &mut RefreshSchedule, done: ()| #[trigger]
            call_ensures(RefreshSchedule::finish, (schedule,), done) ==> !final(schedule).pending
                && final(schedule).next_due == schedule.next_due,
        forall|schedule: RefreshSchedule| #[trigger]
            call_ensures(RefreshSchedule::new, (), schedule) ==> !schedule.pending
                && schedule.next_due is None,
        forall|projection: &ChatProjection, milliseconds: u64| #[trigger]
            call_ensures(poll_milliseconds, (projection,), milliseconds) ==> (milliseconds == 0
                <==> projection.deep_view().is_busy()) && milliseconds <= 16,
{
}

/// Neither of two failures hides the other: the result is a success exactly when both parts were,
/// and it tells each failure that there was.
pub proof fn lemma_no_failure_hides_another()
    ensures
        forall|
            application: Result<(), String>,
            cleanup: Result<(), String>,
            result: Result<(), ApplicationFailure<String, String>>,
        | #[trigger]
            call_ensures(
                restore_after_application::<String, String>,
                (application, cleanup),
                result,
            ) ==> {
                &&& result is Ok <==> application is Ok && cleanup is Ok
                &&& application is Err && cleanup is Ok ==> result->Err_0.description()
                    == application->Err_0@
                &&& application is Ok && cleanup is Err ==> result->Err_0.description()
                    == cleanup->Err_0@
                &&& application is Err && cleanup is Err ==> result->Err_0.description()
                    == application->Err_0@ + "; terminal cleanup also failed: "@ + cleanup->Err_0@
            },
{
}

} // verus!
