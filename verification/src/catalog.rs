//! Model catalogs: reading them from what a runtime reports, and keeping the
//! catalog of a connector.

use vstd::prelude::*;
use vstd::string::*;

use crate::error;
use crate::error::{RuntimeError, CODEX_CATALOG_UNAVAILABLE};
use crate::event::{copy_text, object1, text_json, RuntimeCapabilities};
use crate::json;
use crate::json::Json;
use crate::order;
use crate::order::{insert_text, text_precedes};
use crate::text;
use crate::text::{decimal_text, joined, safe_model_identifier, same_text};

verus! {

/// What a runtime reports of one model.
#[derive(Debug, PartialEq, Eq)]
pub struct RuntimeModelMetadata {
    pub model_id: String,
    pub available: bool,
    pub enabled: bool,
    pub status: Option<String>,
    pub capabilities: RuntimeCapabilities,
}

/// The models that a runtime reports.
#[derive(Clone, Debug, PartialEq, Eq)]
pub struct RuntimeModelCatalog {
    pub models: Vec<String>,
    /// The runtime's own revision of the catalog.
    pub revision: Option<String>,
    /// The model that the runtime declares to be its default. That there is none
    /// has a meaning: the order of the models never stands in for it.
    pub default_model_id: Option<String>,
    pub model_metadata: Vec<RuntimeModelMetadata>,
}

#[verifier::ext_equal]
pub struct MetaView {
    pub model_id: Seq<char>,
    pub available: bool,
    pub enabled: bool,
    pub status: Option<Seq<char>>,
    pub capabilities: RuntimeCapabilities,
}

#[verifier::ext_equal]
pub struct CatalogView {
    pub models: Seq<Seq<char>>,
    pub revision: Option<Seq<char>>,
    pub default_model_id: Option<Seq<char>>,
    pub model_metadata: Seq<MetaView>,
}

impl View for RuntimeModelMetadata {
    type V = MetaView;

    open spec fn view(&self) -> MetaView {
        MetaView {
            model_id: self.model_id@,
            available: self.available,
            enabled: self.enabled,
            status: text::opt_text(self.status),
            capabilities: self.capabilities,
        }
    }
}

impl Clone for RuntimeModelMetadata {
    fn clone(&self) -> (r: Self)
        ensures
            r@ == self@,
    {
        RuntimeModelMetadata {
            model_id: self.model_id.clone(),
            available: self.available,
            enabled: self.enabled,
            status: copy_text(&self.status),
            capabilities: self.capabilities,
        }
    }
}

pub open spec fn meta_views(table: Seq<RuntimeModelMetadata>) -> Seq<MetaView> {
    Seq::new(table.len(), |i: int| table[i]@)
}

impl View for RuntimeModelCatalog {
    type V = CatalogView;

    open spec fn view(&self) -> CatalogView {
        CatalogView {
            models: text::texts(self.models@),
            revision: text::opt_text(self.revision),
            default_model_id: text::opt_text(self.default_model_id),
            model_metadata: meta_views(self.model_metadata@),
        }
    }
}

/// The ids of a table of models.
pub open spec fn table_ids(table: Seq<MetaView>) -> Seq<Seq<char>> {
    Seq::new(table.len(), |i: int| table[i].model_id)
}

/// A table with one more model at its place. A model that is there is replaced,
/// or kept.
pub open spec fn table_put(table: Seq<MetaView>, m: MetaView, replace: bool) -> Seq<MetaView> {
    let ids = table_ids(table);
    let p = order::place(ids, m.model_id);
    if order::placed(ids, m.model_id) {
        if replace {
            table.update(p, m)
        } else {
            table
        }
    } else {
        table.insert(p, m)
    }
}

/// The model of a table with the given id.
pub open spec fn table_get(table: Seq<MetaView>, id: Seq<char>) -> Option<MetaView>
    decreases table.len(),
{
    if table.len() == 0 {
        None
    } else if table[0].model_id == id {
        Some(table[0])
    } else {
        table_get(table.drop_first(), id)
    }
}

/// Putting a model into a table changes its ids as putting a text into a sorted
/// list does.
pub proof fn lemma_table_put_ids(table: Seq<MetaView>, m: MetaView, replace: bool)
    ensures
        table_ids(table_put(table, m, replace)) == order::put_text(table_ids(table), m.model_id),
{
    let ids = table_ids(table);
    lemma_place_bounds(ids, m.model_id);
    assert(table_ids(table_put(table, m, replace)) =~= order::put_text(ids, m.model_id));
}

proof fn lemma_place_bounds(ids: Seq<Seq<char>>, id: Seq<char>)
    ensures
        0 <= order::place(ids, id) <= ids.len(),
    decreases ids.len(),
{
    if ids.len() > 0 && !order::text_less(ids.last(), id) {
        lemma_place_bounds(ids.drop_last(), id);
    }
}

/// Puts a model into a table.
pub(crate) fn put_metadata(table: &mut Vec<RuntimeModelMetadata>, m: RuntimeModelMetadata, replace: bool)
    ensures
        meta_views(final(table)@) == table_put(meta_views(old(table)@), m@, replace),
{
    let ghost all = table_ids(meta_views(table@));
    let mut p: usize = table.len();
    assert(all.take(p as int) =~= all);
    while p > 0 && !text_precedes(table[p - 1].model_id.as_str(), m.model_id.as_str())
        invariant
            p <= table@.len(),
            all == table_ids(meta_views(table@)),
            order::place(all, m@.model_id) == order::place(all.take(p as int), m@.model_id),
        decreases p,
    {
        assert(all.take(p as int).last() == table@[p - 1].model_id@);
        assert(all.take(p as int).drop_last() =~= all.take(p - 1));
        p -= 1;
    }
    proof {
        if p > 0 {
            assert(all.take(p as int).last() == table@[p - 1].model_id@);
        }
        assert(order::place(all, m@.model_id) == p);
        assert(p < table@.len() ==> all[p as int] == table@[p as int].model_id@);
    }
    let ghost before = meta_views(table@);
    if p < table.len() && same_text(table[p].model_id.as_str(), m.model_id.as_str()) {
        if replace {
            table.set(p, m);
            assert(meta_views(table@) =~= before.update(p as int, m@));
        }
        return ;
    }
    table.insert(p, m);
    assert(meta_views(table@) =~= before.insert(p as int, m@));
}

/// Finds a model of a table.
pub fn find_metadata<'a>(table: &'a Vec<RuntimeModelMetadata>, id: &str) -> (r: Option<
    &'a RuntimeModelMetadata,
>)
    ensures
        match r {
            Some(m) => table_get(meta_views(table@), id@) == Some(m@),
            None => table_get(meta_views(table@), id@) is None,
        },
{
    let ghost all = meta_views(table@);
    let mut i: usize = 0;
    assert(all.skip(0) =~= all);
    while i < table.len()
        invariant
            i <= table@.len(),
            all == meta_views(table@),
            table_get(all, id@) == table_get(all.skip(i as int), id@),
        decreases table@.len() - i,
    {
        assert(all.skip(i as int)[0] == table@[i as int]@);
        assert(all.skip(i as int).drop_first() =~= all.skip(i + 1));
        if same_text(table[i].model_id.as_str(), id) {
            return Some(&table[i]);
        }
        i += 1;
    }
    None
}

/// The ids of a table.
pub(crate) fn ids_of(table: &Vec<RuntimeModelMetadata>) -> (r: Vec<String>)
    ensures
        text::texts(r@) == table_ids(meta_views(table@)),
{
    let ghost all = table_ids(meta_views(table@));
    let mut r: Vec<String> = Vec::new();
    let mut i: usize = 0;
    assert(text::texts(r@) =~= all.take(0));
    while i < table.len()
        invariant
            i <= table@.len(),
            all == table_ids(meta_views(table@)),
            text::texts(r@) == all.take(i as int),
        decreases table@.len() - i,
    {
        let id = table[i].model_id.clone();
        proof {
            assert(text::texts(r@.push(id)) =~= text::texts(r@).push(id@));
            assert(all.take(i + 1) =~= all.take(i as int).push(id@));
        }
        r.push(id);
        i += 1;
    }
    assert(all.take(i as int) =~= all);
    r
}

/// Whether a model can be chosen.
pub open spec fn selectable(table: Seq<MetaView>, id: Seq<char>) -> bool {
    match table_get(table, id) {
        Some(m) => m.available && m.enabled,
        None => false,
    }
}

pub(crate) fn is_selectable(table: &Vec<RuntimeModelMetadata>, id: &str) -> (r: bool)
    ensures
        r == selectable(meta_views(table@), id@),
{
    match find_metadata(table, id) {
        Some(m) => m.available && m.enabled,
        None => false,
    }
}

// ---------------------------------------------------------------------------
// What a runtime reports.

/// Everything a model can do, unless it is said otherwise.
pub open spec fn all_capabilities() -> RuntimeCapabilities {
    RuntimeCapabilities { streaming: true, cancel: true, filesystem: true, shell: true }
}

pub open spec fn flag_or(t: json::JsonTree, key: Seq<char>, fallback: bool) -> bool {
    match json::bool_value(json::field(t, key)) {
        Some(b) => b,
        None => fallback,
    }
}

/// The capabilities that a value lists; what it does not say is as the fallback
/// says, and so is everything where it is no object.
pub open spec fn capabilities_of(
    value: Option<json::JsonTree>,
    fallback: RuntimeCapabilities,
) -> RuntimeCapabilities {
    match value {
        Some(t) => if t is Object {
            RuntimeCapabilities {
                streaming: flag_or(t, "streaming"@, fallback.streaming),
                cancel: flag_or(t, "cancel"@, fallback.cancel),
                filesystem: flag_or(t, "filesystem"@, fallback.filesystem),
                shell: flag_or(t, "shell"@, fallback.shell),
            }
        } else {
            fallback
        },
        None => fallback,
    }
}

pub(crate) fn flag(value: &Json, key: &str) -> (r: Option<bool>)
    ensures
        r == json::bool_value(json::field(value.tree(), key@)),
{
    match value.get(key) {
        Some(v) => v.as_bool(),
        None => None,
    }
}

pub(crate) fn flag_with(value: &Json, key: &str, fallback: bool) -> (r: bool)
    ensures
        r == flag_or(value.tree(), key@, fallback),
{
    match flag(value, key) {
        Some(b) => b,
        None => fallback,
    }
}

pub open spec fn opt_json_tree(value: Option<&Json>) -> Option<json::JsonTree> {
    match value {
        Some(v) => Some(v.tree()),
        None => None,
    }
}

pub fn runtime_capabilities_from_value(
    value: Option<&Json>,
    fallback: RuntimeCapabilities,
) -> (r: RuntimeCapabilities)
    ensures
        r == capabilities_of(opt_json_tree(value), fallback),
{
    match value {
        Some(v) => match v {
            Json::Object(_) => RuntimeCapabilities {
                streaming: flag_with(v, "streaming", fallback.streaming),
                cancel: flag_with(v, "cancel", fallback.cancel),
                filesystem: flag_with(v, "filesystem", fallback.filesystem),
                shell: flag_with(v, "shell", fallback.shell),
            },
            _ => fallback,
        },
        None => fallback,
    }
}

pub open spec fn safe(value: Option<Seq<char>>) -> Option<Seq<char>> {
    match value {
        Some(s) => text::safe_identifier(s),
        None => None,
    }
}

pub(crate) fn safe_opt(value: Option<&str>) -> (r: Option<String>)
    ensures
        text::opt_text(r) == safe(
            match value {
                Some(s) => Some(s@),
                None => None,
            },
        ),
{
    match value {
        Some(s) => safe_model_identifier(s),
        None => None,
    }
}

/// The text of a number.
pub open spec fn number_text(t: json::JsonTree) -> Option<Seq<char>> {
    match t {
        json::JsonTree::Unsigned(n) => Some(text::decimal(n as nat)),
        json::JsonTree::Negative(n) => Some(
            if n < 0 {
                "-"@ + text::decimal(-(n as int) as nat)
            } else {
                text::decimal(n as nat)
            },
        ),
        json::JsonTree::Fraction(s) => Some(s),
        _ => None,
    }
}

/// A revision that is a text or a number.
pub open spec fn revision_of(value: Option<json::JsonTree>) -> Option<Seq<char>> {
    match value {
        Some(json::JsonTree::Text(s)) => text::safe_identifier(s),
        Some(t) => safe(number_text(t)),
        None => None,
    }
}

pub(crate) fn revision_from(value: Option<&Json>) -> (r: Option<String>)
    ensures
        text::opt_text(r) == revision_of(opt_json_tree(value)),
{
    match value {
        Some(v) => match v {
            Json::Text(s) => safe_model_identifier(s.as_str()),
            Json::Unsigned(n) => safe_model_identifier(decimal_text(*n).as_str()),
            Json::Negative(n) => if *n < 0 {
                let magnitude: u64 = (-(*n as i128)) as u64;
                safe_model_identifier(joined("-", decimal_text(magnitude).as_str()).as_str())
            } else {
                safe_model_identifier(decimal_text(*n as u64).as_str())
            },
            Json::Fraction(s) => safe_model_identifier(s.as_str()),
            _ => None,
        },
        None => None,
    }
}

// ---------------------------------------------------------------------------
// Pages of models of an app server.

/// The rows of a page.
pub open spec fn page_rows(page: json::JsonTree) -> Seq<json::JsonTree> {
    match json::first_of(
        json::list_value(json::field(page, "models"@)),
        json::first_of(
            json::list_value(json::field(page, "items"@)),
            json::first_of(
                json::list_value(json::field(page, "data"@)),
                json::list_value(json::field(page, "results"@)),
            ),
        ),
    ) {
        Some(rows) => rows,
        None => seq![],
    }
}

/// The id of the model that a row stands for.
pub open spec fn row_id(row: json::JsonTree) -> Option<Seq<char>> {
    safe(
        json::first_of(
            json::text_value(Some(row)),
            json::first_of(
                json::text_field(row, "id"@),
                json::first_of(json::text_field(row, "model"@), json::text_field(row, "name"@)),
            ),
        ),
    )
}

/// Whether a row declares its model to be the default.
pub open spec fn row_is_default(row: json::JsonTree) -> bool {
    json::first_of(
        json::bool_value(json::field(row, "isDefault"@)),
        json::first_of(
            json::bool_value(json::field(row, "default"@)),
            json::bool_value(json::field(row, "configuredDefault"@)),
        ),
    ) == Some(true)
}

/// What a row says of its model.
pub open spec fn row_model(row: json::JsonTree) -> Option<MetaView> {
    match row_id(row) {
        None => None,
        Some(id) => {
            let status = safe(json::text_field(row, "status"@));
            Some(
                MetaView {
                    model_id: id,
                    available: flag_or(row, "available"@, status != Some("unavailable"@)),
                    enabled: flag_or(row, "enabled"@, true),
                    status,
                    capabilities: capabilities_of(
                        json::field(row, "capabilities"@),
                        all_capabilities(),
                    ),
                },
            )
        },
    }
}

/// The models of some rows, in order.
pub open spec fn row_models(rows: Seq<json::JsonTree>) -> Seq<MetaView>
    decreases rows.len(),
{
    if rows.len() == 0 {
        seq![]
    } else {
        match row_model(rows.last()) {
            Some(m) => row_models(rows.drop_last()).push(m),
            None => row_models(rows.drop_last()),
        }
    }
}

/// The first model that a row declares to be the default.
pub open spec fn rows_default(rows: Seq<json::JsonTree>) -> Option<Seq<char>>
    decreases rows.len(),
{
    if rows.len() == 0 {
        None
    } else {
        json::first_of(
            rows_default(rows.drop_last()),
            if row_is_default(rows.last()) {
                row_id(rows.last())
            } else {
                None
            },
        )
    }
}

/// What a page says: its models, where the next page is, the default model and
/// the revision of the catalog.
#[verifier::ext_equal]
pub struct PageView {
    pub models: Seq<MetaView>,
    pub cursor: Option<Seq<char>>,
    pub default_model_id: Option<Seq<char>>,
    pub revision: Option<Seq<char>>,
}

pub open spec fn page_of(page: json::JsonTree) -> PageView {
    PageView {
        models: row_models(page_rows(page)),
        cursor: safe(
            json::first_of(
                json::text_field(page, "nextCursor"@),
                json::first_of(
                    json::text_field(page, "next_cursor"@),
                    json::text_field(page, "cursor"@),
                ),
            ),
        ),
        default_model_id: json::first_of(
            safe(
                json::first_of(
                    json::text_field(page, "defaultModelId"@),
                    json::first_of(
                        json::text_field(page, "defaultModel"@),
                        json::text_field(page, "configuredDefault"@),
                    ),
                ),
            ),
            rows_default(page_rows(page)),
        ),
        revision: revision_of(
            json::first_of(
                json::field(page, "catalogRevision"@),
                json::field(page, "revision"@),
            ),
        ),
    }
}

/// A page of models.
pub struct ModelPage {
    pub models: Vec<RuntimeModelMetadata>,
    pub cursor: Option<String>,
    pub default_model_id: Option<String>,
    pub revision: Option<String>,
}

impl View for ModelPage {
    type V = PageView;

    open spec fn view(&self) -> PageView {
        PageView {
            models: meta_views(self.models@),
            cursor: text::opt_text(self.cursor),
            default_model_id: text::opt_text(self.default_model_id),
            revision: text::opt_text(self.revision),
        }
    }
}

pub(crate) fn list_field<'a>(value: &'a Json, key: &str) -> (r: Option<&'a Vec<Json>>)
    ensures
        match r {
            Some(items) => json::list_value(json::field(value.tree(), key@)) == Some(
                json::trees(items@),
            ),
            None => json::list_value(json::field(value.tree(), key@)) is None,
        },
{
    match value.get(key) {
        Some(v) => v.as_array(),
        None => None,
    }
}

/// The first of three string members that is there.
pub(crate) fn text_of_keys<'a>(value: &'a Json, a: &str, b: &str, c: &str) -> (r: Option<&'a str>)
    ensures
        match r {
            Some(s) => json::first_of(
                json::text_field(value.tree(), a@),
                json::first_of(
                    json::text_field(value.tree(), b@),
                    json::text_field(value.tree(), c@),
                ),
            ) == Some(s@),
            None => json::first_of(
                json::text_field(value.tree(), a@),
                json::first_of(
                    json::text_field(value.tree(), b@),
                    json::text_field(value.tree(), c@),
                ),
            ) is None,
        },
{
    match value.get_str(a) {
        Some(s) => Some(s),
        None => match value.get_str(b) {
            Some(s) => Some(s),
            None => value.get_str(c),
        },
    }
}

fn row_id_of(row: &Json) -> (r: Option<String>)
    ensures
        text::opt_text(r) == row_id(row.tree()),
{
    match row.as_str() {
        Some(s) => safe_model_identifier(s),
        None => safe_opt(text_of_keys(row, "id", "model", "name")),
    }
}

/// Whether the first of three flags that is there is set.
pub(crate) fn flag_of_keys(value: &Json, a: &str, b: &str, c: &str) -> (r: bool)
    ensures
        r == (json::first_of(
            json::bool_value(json::field(value.tree(), a@)),
            json::first_of(
                json::bool_value(json::field(value.tree(), b@)),
                json::bool_value(json::field(value.tree(), c@)),
            ),
        ) == Some(true)),
{
    match flag(value, a) {
        Some(x) => x,
        None => match flag(value, b) {
            Some(x) => x,
            None => match flag(value, c) {
                Some(x) => x,
                None => false,
            },
        },
    }
}

pub(crate) fn is_text(value: &Option<String>, s: &str) -> (r: bool)
    ensures
        r == (text::opt_text(*value) == Some(s@)),
{
    match value {
        Some(v) => same_text(v.as_str(), s),
        None => false,
    }
}

fn row_model_of(row: &Json) -> (r: Option<RuntimeModelMetadata>)
    ensures
        match r {
            Some(m) => row_model(row.tree()) == Some(m@),
            None => row_model(row.tree()) is None,
        },
{
    match row_id_of(row) {
        None => None,
        Some(id) => {
            let status = safe_opt(row.get_str("status"));
            let usable = !is_text(&status, "unavailable");
            Some(
                RuntimeModelMetadata {
                    model_id: id,
                    available: flag_with(row, "available", usable),
                    enabled: flag_with(row, "enabled", true),
                    status,
                    capabilities: runtime_capabilities_from_value(
                        row.get("capabilities"),
                        RuntimeCapabilities {
                            streaming: true,
                            cancel: true,
                            filesystem: true,
                            shell: true,
                        },
                    ),
                },
            )
        },
    }
}

pub proof fn lemma_meta_views_push(table: Seq<RuntimeModelMetadata>, m: RuntimeModelMetadata)
    ensures
        meta_views(table.push(m)) == meta_views(table).push(m@),
{
    assert(meta_views(table.push(m)) =~= meta_views(table).push(m@));
}

/// Reads a page of models.
pub fn model_page(value: &Json) -> (r: ModelPage)
    ensures
        r@ == page_of(value.tree()),
{
    let found = match list_field(value, "models") {
        Some(rows) => Some(rows),
        None => match list_field(value, "items") {
            Some(rows) => Some(rows),
            None => match list_field(value, "data") {
                Some(rows) => Some(rows),
                None => list_field(value, "results"),
            },
        },
    };
    let ghost all = page_rows(value.tree());
    let mut models: Vec<RuntimeModelMetadata> = Vec::new();
    let mut row_default: Option<String> = None;
    assert(meta_views(models@) =~= row_models(all.take(0)));
    match found {
        Some(rows) => {
            let mut i: usize = 0;
            while i < rows.len()
                invariant
                    i <= rows@.len(),
                    all == json::trees(rows@),
                    meta_views(models@) == row_models(all.take(i as int)),
                    text::opt_text(row_default) == rows_default(all.take(i as int)),
                decreases rows@.len() - i,
            {
                proof {
                    assert(all.take(i + 1).drop_last() =~= all.take(i as int));
                    assert(all.take(i + 1).last() == rows@[i as int].tree());
                }
                match row_model_of(&rows[i]) {
                    Some(m) => {
                        if row_default.is_none() && flag_of_keys(
                            &rows[i],
                            "isDefault",
                            "default",
                            "configuredDefault",
                        ) {
                            row_default = Some(m.model_id.clone());
                        }
                        proof {
                            lemma_meta_views_push(models@, m);
                        }
                        models.push(m);
                    },
                    None => {},
                }
                i += 1;
            }
            assert(all.take(i as int) =~= all);
        },
        None => {
            assert(all.take(0) =~= all);
        },
    }
    let declared = safe_opt(
        text_of_keys(value, "defaultModelId", "defaultModel", "configuredDefault"),
    );
    let default_model_id = match declared {
        Some(id) => Some(id),
        None => row_default,
    };
    let revision = match value.get("catalogRevision") {
        Some(v) => revision_from(Some(v)),
        None => revision_from(value.get("revision")),
    };
    ModelPage {
        models,
        cursor: safe_opt(text_of_keys(value, "nextCursor", "next_cursor", "cursor")),
        default_model_id,
        revision,
    }
}

/// The most pages of a catalog that are asked for.
pub const MAX_CATALOG_PAGES: usize = 25;

/// The state of a catalog while its pages are read.
#[verifier::ext_equal]
pub struct PagerView {
    pub cursor: Option<Seq<char>>,
    pub table: Seq<MetaView>,
    pub cursors: Seq<Seq<char>>,
    pub default_model_id: Option<Seq<char>>,
    pub revision: Option<Seq<char>>,
    pub pages: nat,
    pub done: bool,
}

/// A table after some models, where a later one replaces an earlier one.
pub open spec fn table_put_all(table: Seq<MetaView>, models: Seq<MetaView>) -> Seq<MetaView>
    decreases models.len(),
{
    if models.len() == 0 {
        table
    } else {
        table_put(table_put_all(table, models.drop_last()), models.last(), true)
    }
}

pub open spec fn fresh_pager() -> PagerView {
    PagerView {
        cursor: None,
        table: seq![],
        cursors: seq![],
        default_model_id: None,
        revision: None,
        pages: 0,
        done: false,
    }
}

impl PagerView {
    /// The state after one more page. Reading ends at a page that names no next
    /// page or one that was read before, and after the most pages that are read.
    pub open spec fn step(self, page: PageView) -> PagerView {
        let repeated = match page.cursor {
            Some(c) => order::placed(self.cursors, c),
            None => false,
        };
        PagerView {
            cursor: match page.cursor {
                Some(c) => if repeated {
                    self.cursor
                } else {
                    Some(c)
                },
                None => self.cursor,
            },
            table: table_put_all(self.table, page.models),
            cursors: match page.cursor {
                Some(c) => order::put_text(self.cursors, c),
                None => self.cursors,
            },
            default_model_id: json::first_of(self.default_model_id, page.default_model_id),
            revision: json::first_of(self.revision, page.revision),
            pages: self.pages + 1,
            done: page.cursor is None || repeated || self.pages + 1 >= MAX_CATALOG_PAGES,
        }
    }

    /// The catalog that was read. A catalog without any model is no catalog.
    pub open spec fn catalog(self, configured: Option<Seq<char>>) -> Result<
        CatalogView,
        error::ErrorView,
    > {
        if self.table.len() == 0 {
            Err(error::ErrorView::Transport(CODEX_CATALOG_UNAVAILABLE@))
        } else {
            let wanted = json::first_of(self.default_model_id, configured);
            Ok(
                CatalogView {
                    models: table_ids(self.table),
                    revision: self.revision,
                    default_model_id: match wanted {
                        Some(id) => if table_get(self.table, id) is Some {
                            Some(id)
                        } else {
                            None
                        },
                        None => None,
                    },
                    model_metadata: self.table,
                },
            )
        }
    }
}

/// Reads the pages of an app server's catalog.
pub struct CatalogPager {
    cursor: Option<String>,
    table: Vec<RuntimeModelMetadata>,
    cursors: Vec<String>,
    default_model_id: Option<String>,
    revision: Option<String>,
    pages: usize,
    done: bool,
}

impl CatalogPager {
    pub closed spec fn view(&self) -> PagerView {
        PagerView {
            cursor: text::opt_text(self.cursor),
            table: meta_views(self.table@),
            cursors: text::texts(self.cursors@),
            default_model_id: text::opt_text(self.default_model_id),
            revision: text::opt_text(self.revision),
            pages: self.pages as nat,
            done: self.done,
        }
    }

    pub fn new() -> (r: Self)
        ensures
            r@ == fresh_pager(),
    {
        let r = CatalogPager {
            cursor: None,
            table: Vec::new(),
            cursors: Vec::new(),
            default_model_id: None,
            revision: None,
            pages: 0,
            done: false,
        };
        assert(r@ =~= fresh_pager());
        r
    }

    /// Whether all pages have been read.
    pub fn is_done(&self) -> (r: bool)
        ensures
            r == self@.done,
    {
        self.done
    }

    /// The parameters by which the next page is asked for.
    pub fn params(&self) -> (r: Json)
        ensures
            r.tree() == json::JsonTree::Object(
                match self@.cursor {
                    Some(c) => seq![("cursor"@, json::JsonTree::Text(c))],
                    None => seq![],
                },
            ),
    {
        match &self.cursor {
            Some(c) => object1("cursor", text_json(c.as_str())),
            None => {
                let r = Json::Object(Vec::new());
                proof {
                    r.lemma_list();
                    assert(r.tree()->Object_0 =~= seq![]);
                }
                r
            },
        }
    }

    /// Takes the next page.
    pub fn take(&mut self, value: &Json)
        requires
            old(self)@.pages < MAX_CATALOG_PAGES,
        ensures
            final(self)@ == old(self)@.step(page_of(value.tree())),
    {
        let page = model_page(value);
        let ghost view = page@;
        let ghost before = self@;
        let ModelPage { models, cursor, default_model_id, revision } = page;
        let ghost all = meta_views(models@);
        assert(all.take(0) =~= seq![]);
        for m in it: models
            invariant
                it.seq() == models@,
                all == meta_views(models@),
                meta_views(self.table@) == table_put_all(
                    before.table,
                    all.take(it.index() as int),
                ),
                self.cursor == old(self).cursor,
                self.cursors == old(self).cursors,
                self.default_model_id == old(self).default_model_id,
                self.revision == old(self).revision,
                self.pages == old(self).pages,
        {
            proof {
                let i = it.index() as int;
                assert(all.take(i + 1).drop_last() =~= all.take(i));
                assert(all.take(i + 1).last() == m@);
            }
            put_metadata(&mut self.table, m, true);
        }
        assert(all.take(all.len() as int) =~= all);
        if self.default_model_id.is_none() {
            self.default_model_id = default_model_id;
        }
        if self.revision.is_none() {
            self.revision = revision;
        }
        self.pages = self.pages + 1;
        match cursor {
            Some(c) => {
                let fresh = insert_text(&mut self.cursors, c.clone());
                if fresh {
                    self.cursor = Some(c);
                }
                self.done = !fresh || self.pages >= MAX_CATALOG_PAGES;
            },
            None => {
                self.done = true;
            },
        }
        assert(self@ =~= before.step(view));
    }

    /// The catalog that was read.
    pub fn finish(self, configured: &Option<String>) -> (r: Result<
        RuntimeModelCatalog,
        RuntimeError,
    >)
        ensures
            match r {
                Ok(catalog) => self@.catalog(text::opt_text(*configured)) == Ok::<
                    CatalogView,
                    error::ErrorView,
                >(catalog@),
                Err(e) => self@.catalog(text::opt_text(*configured)) == Err::<
                    CatalogView,
                    error::ErrorView,
                >(e@),
            },
    {
        if self.table.len() == 0 {
            return Err(RuntimeError::transport(CODEX_CATALOG_UNAVAILABLE));
        }
        let wanted = match &self.default_model_id {
            Some(id) => Some(id.clone()),
            None => copy_text(configured),
        };
        let default_model_id = match wanted {
            Some(id) => if find_metadata(&self.table, id.as_str()).is_some() {
                Some(id)
            } else {
                None
            },
            None => None,
        };
        let models = ids_of(&self.table);
        Ok(
            RuntimeModelCatalog {
                models,
                revision: self.revision,
                default_model_id,
                model_metadata: self.table,
            },
        )
    }
}

/// The state after the pages of a catalog, as many as are asked for.
pub open spec fn pages_read(s: PagerView, pages: Seq<PageView>) -> PagerView
    decreases pages.len(),
{
    if s.done || pages.len() == 0 {
        s
    } else {
        pages_read(s.step(pages[0]), pages.drop_first())
    }
}

proof fn lemma_put_all_sorted(table: Seq<MetaView>, models: Seq<MetaView>)
    requires
        order::is_sorted(table_ids(table)),
    ensures
        order::is_sorted(table_ids(table_put_all(table, models))),
    decreases models.len(),
{
    if models.len() > 0 {
        let before = table_put_all(table, models.drop_last());
        lemma_put_all_sorted(table, models.drop_last());
        lemma_table_put_ids(before, models.last(), true);
        order::law_put_keeps_order(table_ids(before), models.last().model_id);
    }
}

proof fn lemma_pages_read(s: PagerView, pages: Seq<PageView>)
    requires
        order::is_sorted(table_ids(s.table)),
        s.pages < MAX_CATALOG_PAGES || s.done,
        s.pages <= MAX_CATALOG_PAGES,
    ensures
        order::is_sorted(table_ids(pages_read(s, pages).table)),
        pages_read(s, pages).pages <= MAX_CATALOG_PAGES,
    decreases pages.len(),
{
    if !s.done && pages.len() > 0 {
        lemma_put_all_sorted(s.table, pages[0].models);
        lemma_pages_read(s.step(pages[0]), pages.drop_first());
    }
}

proof fn lemma_table_get(table: Seq<MetaView>, id: Seq<char>)
    requires
        table_get(table, id) is Some,
    ensures
        table_ids(table).contains(id),
    decreases table.len(),
{
    if table[0].model_id == id {
        assert(table_ids(table)[0] == id);
    } else {
        let rest = table.drop_first();
        lemma_table_get(rest, id);
        let k = choose|k: int| 0 <= k < rest.len() && table_ids(rest)[k] == id;
        assert(table_ids(table)[k + 1] == id);
    }
}

/// Whatever pages an app server hands out, no more than the most that are asked for
/// are read, and a catalog that comes of them names at least one model, names each
/// once and in order, and has a default only among them.
pub proof fn law_catalog_is_orderly(pages: Seq<PageView>, configured: Option<Seq<char>>)
    ensures
        pages_read(fresh_pager(), pages).pages <= MAX_CATALOG_PAGES,
        match pages_read(fresh_pager(), pages).catalog(configured) {
            Ok(c) => c.models.len() > 0 && order::is_sorted(c.models) && (c.default_model_id
                matches Some(id) ==> c.models.contains(id)),
            Err(e) => e == error::ErrorView::Transport(CODEX_CATALOG_UNAVAILABLE@),
        },
{
    lemma_pages_read(fresh_pager(), pages);
    let s = pages_read(fresh_pager(), pages);
    let wanted = json::first_of(s.default_model_id, configured);
    if let Some(id) = wanted {
        if table_get(s.table, id) is Some {
            lemma_table_get(s.table, id);
        }
    }
}

} // verus!
