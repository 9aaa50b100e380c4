//! Small rules of the ledger service: years of dates, schedules of
//! categories, the order of document statuses, and the paths that belong
//! to a workbook.
use vstd::prelude::*;

use crate::error::ToolError;
use crate::schema::{has_parent_component, path_has_parent_component};
use crate::text::{
    ascii_upper_seq, find_char, find_char_index, to_ascii_uppercase, trim, trim_spec,
    ascii_lower_seq, concat, owned, push_str, contains_spec, first_piece, first_two_pieces, parse_i32,
    parse_int_spec, parse_u16, parse_u32, parse_u8, split_spec, str_contains, str_eq,
    to_ascii_lowercase,
};
use crate::types::{DocumentQueueStatusRequest, NormalizeFilenameRequest, ScheduleKindRequest};

verus! {

/// The year of a `YYYY-...` date: the number before the first `-`, or 0
/// when that is not a number.
pub open spec fn derive_year_spec(date: Seq<char>) -> i32 {
    match parse_int_spec(split_spec(date, '-')[0], true, i32::MIN as int, i32::MAX as int) {
        Some(v) => v as i32,
        None => 0,
    }
}

/// The year of a date, or 0.
pub fn derive_year(date: &str) -> (r: i32)
    ensures
        r == derive_year_spec(date@),
{
    match parse_i32(first_piece(date, '-')) {
        Some(y) => y,
        None => 0,
    }
}

/// The schedule a category is reported on: crypto, capital and bad-debt
/// categories on D, rent and property on E, anything else but
/// `uncategorized` on C. Letters are compared without ASCII case.
pub open spec fn schedule_for_category_spec(category: Seq<char>) -> Option<ScheduleKindRequest> {
    let c = ascii_lower_seq(category);
    if contains_spec(c, "crypto"@) || contains_spec(c, "capital"@) || contains_spec(c, "baddebt"@) {
        Some(ScheduleKindRequest::ScheduleD)
    } else if contains_spec(c, "rent"@) || contains_spec(c, "property"@) {
        Some(ScheduleKindRequest::ScheduleE)
    } else if c != "uncategorized"@ {
        Some(ScheduleKindRequest::ScheduleC)
    } else {
        None
    }
}

/// Where a category is reported, by the words its ASCII-lowercased text
/// contains: any category mentioning "crypto", "capital" or "baddebt" on
/// Schedule D; otherwise one mentioning "rent" or "property" on Schedule E;
/// every other category on Schedule C, but for `uncategorized` (in any
/// ASCII case), the only one reported nowhere.
pub proof fn law_schedule_by_category_words(category: Seq<char>)
    ensures
        ({
            let c = ascii_lower_seq(category);
            let on_d = contains_spec(c, "crypto"@) || contains_spec(c, "capital"@) || contains_spec(c, "baddebt"@);
            let on_e = contains_spec(c, "rent"@) || contains_spec(c, "property"@);
            &&& contains_spec(c, "capital"@) ==> schedule_for_category_spec(category) == Some(
                ScheduleKindRequest::ScheduleD,
            )
            &&& contains_spec(c, "crypto"@) ==> schedule_for_category_spec(category) == Some(
                ScheduleKindRequest::ScheduleD,
            )
            &&& contains_spec(c, "baddebt"@) ==> schedule_for_category_spec(category) == Some(
                ScheduleKindRequest::ScheduleD,
            )
            &&& (!on_d && on_e) ==> schedule_for_category_spec(category) == Some(ScheduleKindRequest::ScheduleE)
            &&& schedule_for_category_spec(category) is None ==> c == "uncategorized"@
            &&& (!on_d && !on_e && c != "uncategorized"@) ==> schedule_for_category_spec(category) == Some(
                ScheduleKindRequest::ScheduleC,
            )
        }),
{
}

/// The schedule a category is reported on, if any.
pub fn schedule_for_category(category: &str) -> (r: Option<ScheduleKindRequest>)
    ensures
        r == schedule_for_category_spec(category@),
{
    let lower = to_ascii_lowercase(category);
    let c = lower.as_str();
    if str_contains(c, "crypto") || str_contains(c, "capital") || str_contains(c, "baddebt") {
        return Some(ScheduleKindRequest::ScheduleD);
    }
    if str_contains(c, "rent") || str_contains(c, "property") {
        return Some(ScheduleKindRequest::ScheduleE);
    }
    if !str_eq(c, "uncategorized") {
        return Some(ScheduleKindRequest::ScheduleC);
    }
    None
}

/// Listing order of document statuses: ingested first, then ready, then
/// those with an invalid name.
pub open spec fn document_status_rank_spec(status: DocumentQueueStatusRequest) -> u8 {
    match status {
        DocumentQueueStatusRequest::Ingested => 0,
        DocumentQueueStatusRequest::Ready => 1,
        DocumentQueueStatusRequest::InvalidName => 2,
    }
}

/// The listing rank of a document status.
pub fn document_status_rank(status: DocumentQueueStatusRequest) -> (r: u8)
    ensures
        r == document_status_rank_spec(status),
{
    match status {
        DocumentQueueStatusRequest::Ingested => 0,
        DocumentQueueStatusRequest::Ready => 1,
        DocumentQueueStatusRequest::InvalidName => 2,
    }
}

/// The year and month of a `YYYY-MM...` date, when both are numbers.
pub open spec fn year_month_spec(date: Seq<char>) -> Option<(i32, u32)> {
    let parts = split_spec(date, '-');
    if parts.len() < 2 {
        None
    } else {
        match (
            parse_int_spec(parts[0], true, i32::MIN as int, i32::MAX as int),
            parse_int_spec(parts[1], false, 0, u32::MAX as int),
        ) {
            (Some(y), Some(m)) => Some((y as i32, m as u32)),
            _ => None,
        }
    }
}

/// Why a date has no year and month: no `-`, a year that is not an `i32`,
/// or a month that is not a `u32`.
pub open spec fn year_month_error_text(date: Seq<char>) -> Seq<char> {
    let parts = split_spec(date, '-');
    if parts.len() < 2 {
        "cannot parse year-month from date: "@ + date
    } else if parse_int_spec(parts[0], true, i32::MIN as int, i32::MAX as int) is None {
        "invalid year in date: "@ + date
    } else {
        "invalid month in date: "@ + date
    }
}

/// The year and month of a date; refused when the date has no `-` or its
/// first two pieces are not numbers.
pub fn year_month_from_date(date: &str) -> (r: Result<(i32, u32), ToolError>)
    ensures
        match r {
            Ok(ym) => year_month_spec(date@) == Some(ym),
            Err(e) => year_month_spec(date@) is None && (e matches ToolError::InvalidInput(msg)
                && msg@ == year_month_error_text(date@)),
        },
{
    let (year_text, month_text) = match first_two_pieces(date, '-') {
        Some(p) => p,
        None => {
            return Err(
                ToolError::InvalidInput(concat("cannot parse year-month from date: ", date)),
            );
        },
    };
    let year = match parse_i32(year_text) {
        Some(y) => y,
        None => {
            return Err(ToolError::InvalidInput(concat("invalid year in date: ", date)));
        },
    };
    let month = match parse_u32(month_text) {
        Some(m) => m,
        None => {
            return Err(ToolError::InvalidInput(concat("invalid month in date: ", date)));
        },
    };
    Ok((year, month))
}

/// Whether a `YYYY-MM...` date has a year that fits `u16` and a month that
/// fits `u8`.
pub open spec fn ymd_parses(s: Seq<char>) -> bool {
    let parts = split_spec(s, '-');
    parts.len() >= 2 && parse_int_spec(parts[0], false, 0, u16::MAX as int) is Some
        && parse_int_spec(parts[1], false, 0, u8::MAX as int) is Some
}

/// The year and month of a `YYYY-MM-DD` date.
pub fn parse_ymd(s: &str) -> (r: (u16, u8))
    requires
        ymd_parses(s@),
    ensures
        parse_int_spec(split_spec(s@, '-')[0], false, 0, u16::MAX as int) == Some(r.0 as int),
        parse_int_spec(split_spec(s@, '-')[1], false, 0, u8::MAX as int) == Some(r.1 as int),
{
    let (year_text, month_text) = match first_two_pieces(s, '-') {
        Some(p) => p,
        None => {
            assert(false);
            return (0, 0);
        },
    };
    let year = match parse_u16(year_text) {
        Some(y) => y,
        None => {
            assert(false);
            0
        },
    };
    let month = match parse_u8(month_text) {
        Some(m) => m,
        None => {
            assert(false);
            0
        },
    };
    (year, month)
}

/// The final component of a path as `std::path::Path::file_name` gives it:
/// `None` for a path that ends in `..`, for the root and for an empty path.
pub uninterp spec fn path_file_name_of(path: Seq<char>) -> Option<Seq<char>>;

/// The path that `std::path::Path::with_file_name` makes of `path` and
/// `name`: its final component, where it has one, replaced by `name`.
pub uninterp spec fn path_with_file_name_of(path: Seq<char>, name: Seq<char>) -> Seq<char>;

/// Calls `Path::file_name` on `path`. The component is handed back as text;
/// it is a piece of a `&str` and so loses nothing in the conversion.
#[verifier::external_body]
fn path_file_name(path: &str) -> (r: Option<String>)
    ensures
        match r {
            Some(n) => path_file_name_of(path@) == Some(n@),
            None => path_file_name_of(path@) is None,
        },
{
    std::path::Path::new(path).file_name().map(|n| n.to_string_lossy().into_owned())
}

/// Calls `Path::with_file_name` on `path` with `name`; both are text, so the
/// result is too.
#[verifier::external_body]
fn path_with_file_name(path: &str, name: &str) -> (r: String)
    ensures
        r@ == path_with_file_name_of(path@, name@),
{
    std::path::Path::new(path).with_file_name(name).to_string_lossy().into_owned()
}

/// The file name of a workbook's ontology: the workbook's own file name
/// (`ledger.xlsx` when it has none) followed by `.ontology.json`.
pub open spec fn ontology_file_name_spec(workbook_file_name: Option<Seq<char>>) -> Seq<char> {
    match workbook_file_name {
        Some(n) => n + ".ontology.json"@,
        None => "ledger.xlsx"@ + ".ontology.json"@,
    }
}

/// The file name of the ontology that belongs to a workbook whose file name
/// is `workbook_file_name`.
pub fn ontology_file_name(workbook_file_name: Option<&str>) -> (r: String)
    ensures
        r@ == ontology_file_name_spec(
            match workbook_file_name {
                Some(n) => Some(n@),
                None => None,
            },
        ),
{
    match workbook_file_name {
        Some(n) => concat(n, ".ontology.json"),
        None => concat("ledger.xlsx", ".ontology.json"),
    }
}

/// Where a workbook's ontology is kept by default: beside the workbook,
/// named after it.
pub fn default_ontology_path_for_workbook(workbook: &str) -> (r: String)
    ensures
        r@ == path_with_file_name_of(
            workbook@,
            ontology_file_name_spec(path_file_name_of(workbook@)),
        ),
{
    let file_name = path_file_name(workbook);
    let name = match &file_name {
        Some(n) => ontology_file_name(Some(n.as_str())),
        None => ontology_file_name(None),
    };
    path_with_file_name(workbook, name.as_str())
}

/// The path that `std::path::Path::with_extension` makes of `path` and
/// `extension`: its file name's extension, where it has one, replaced by
/// `extension`, else `extension` added after a `.`.
pub uninterp spec fn path_with_extension_of(path: Seq<char>, extension: Seq<char>) -> Seq<char>;

/// Calls `Path::with_extension` on `path` with `extension`; both are text,
/// so the result is too. std panics where the extension holds a path
/// separator, on Unix a `/`.
#[verifier::external_body]
fn path_with_extension(path: &str, extension: &str) -> (r: String)
    requires
        find_char(extension@, '/') is None,
    ensures
        r@ == path_with_extension_of(path@, extension@),
{
    std::path::Path::new(path).with_extension(extension).to_string_lossy().into_owned()
}

/// Where the state of the service that works on a workbook is kept: the
/// workbook's path followed by `.ledgerr-state.json`.
pub fn persisted_state_path(workbook_path: &str) -> (r: String)
    ensures
        r@ == workbook_path@ + ".ledgerr-state.json"@,
{
    concat(workbook_path, ".ledgerr-state.json")
}

/// Where the registry of a workbook's documents is kept: the workbook's
/// path with the extension `docs.json`.
pub fn doc_registry_path(workbook: &str) -> (r: String)
    ensures
        r@ == path_with_extension_of(workbook@, "docs.json"@),
{
    proof {
        reveal_strlit("docs.json");
        reveal_with_fuel(find_char, 10);
    }
    path_with_extension(workbook, "docs.json")
}

/// The parent of a path as `std::path::Path::parent` gives it: the path
/// without its final component, `None` for the root and the empty path.
pub uninterp spec fn path_parent_of(path: Seq<char>) -> Option<Seq<char>>;

/// Whether `path` begins with the whole components of `base`, as
/// `std::path::Path::starts_with` decides.
pub uninterp spec fn path_starts_with_of(path: Seq<char>, base: Seq<char>) -> bool;

/// The path that `std::path::Path::join` makes of `base` and `tail`.
pub uninterp spec fn path_join_of(base: Seq<char>, tail: Seq<char>) -> Seq<char>;

/// Calls `Path::parent` on `path`; the parent is a piece of a `&str` and is
/// handed back as text.
#[verifier::external_body]
fn path_parent(path: &str) -> (r: Option<String>)
    ensures
        match r {
            Some(p) => path_parent_of(path@) == Some(p@),
            None => path_parent_of(path@) is None,
        },
{
    std::path::Path::new(path).parent().map(|p| p.to_string_lossy().into_owned())
}

/// Calls `Path::starts_with` on `path` with `base`.
#[verifier::external_body]
fn path_starts_with(path: &str, base: &str) -> (r: bool)
    ensures
        r == path_starts_with_of(path@, base@),
{
    std::path::Path::new(path).starts_with(base)
}

/// Calls `Path::join` on `base` with `tail`; both are text, so the result
/// is too.
#[verifier::external_body]
fn path_join(base: &str, tail: &str) -> (r: String)
    ensures
        r@ == path_join_of(base@, tail@),
{
    std::path::Path::new(base).join(tail).to_string_lossy().into_owned()
}

/// Whether a path is absolute; on Unix, whether it begins at the root `/`.
pub open spec fn is_absolute_path(p: Seq<char>) -> bool {
    p.len() > 0 && p[0] == '/'
}

/// Where a path that a request gives as `label` leads, kept inside the
/// workbook's directory: refused where the workbook has no parent, where
/// the path has a `..` component, or where it is absolute and lies outside
/// that directory; a relative path is taken from that directory.
pub open spec fn resolve_in_workbook_dir_spec(
    label: Seq<char>,
    workbook_path: Seq<char>,
    raw: Seq<char>,
) -> Result<Seq<char>, Seq<char>> {
    match path_parent_of(workbook_path) {
        None => Err("workbook_path must have a parent directory"@),
        Some(base) => if has_parent_component(raw) {
            Err(label + " '"@ + raw + "' contains path traversal components"@)
        } else if is_absolute_path(raw) {
            if path_starts_with_of(raw, base) {
                Ok(raw)
            } else {
                Err(label + " '"@ + raw + "' resolves outside the allowed directory"@)
            }
        } else {
            Ok(path_join_of(base, raw))
        },
    }
}

/// Resolves a path that a request gives as `label` inside the directory of
/// the workbook, refusing one that would leave it.
pub fn resolve_in_workbook_dir(label: &str, workbook_path: &str, raw: &str) -> (r: Result<String, ToolError>)
    ensures
        match r {
            Ok(p) => resolve_in_workbook_dir_spec(label@, workbook_path@, raw@) == Ok::<Seq<char>, Seq<char>>(p@),
            Err(e) => e matches ToolError::InvalidInput(m) && resolve_in_workbook_dir_spec(
                label@,
                workbook_path@,
                raw@,
            ) == Err::<Seq<char>, Seq<char>>(m@),
        },
{
    let base = match path_parent(workbook_path) {
        Some(b) => b,
        None => {
            return Err(ToolError::InvalidInput(owned("workbook_path must have a parent directory")));
        },
    };
    if path_has_parent_component(raw) {
        let mut msg = concat(label, " '");
        push_str(&mut msg, raw);
        push_str(&mut msg, "' contains path traversal components");
        return Err(ToolError::InvalidInput(msg));
    }
    let absolute = raw.unicode_len() > 0 && raw.get_char(0) == '/';
    if absolute {
        if path_starts_with(raw, base.as_str()) {
            Ok(owned(raw))
        } else {
            let mut msg = concat(label, " '");
            push_str(&mut msg, raw);
            push_str(&mut msg, "' resolves outside the allowed directory");
            Err(ToolError::InvalidInput(msg))
        }
    } else {
        Ok(path_join(base.as_str(), raw))
    }
}

/// A path with a `..` component is never resolved, whatever the workbook.
pub proof fn law_traversal_always_refused(label: Seq<char>, workbook_path: Seq<char>, raw: Seq<char>)
    requires
        has_parent_component(raw),
    ensures
        resolve_in_workbook_dir_spec(label, workbook_path, raw) is Err,
{
}

/// An absolute path is resolved only where it lies inside the workbook's
/// directory, and then to itself.
pub proof fn law_absolute_paths_stay_inside(label: Seq<char>, workbook_path: Seq<char>, raw: Seq<char>)
    requires
        is_absolute_path(raw),
        resolve_in_workbook_dir_spec(label, workbook_path, raw) is Ok,
    ensures
        path_parent_of(workbook_path) matches Some(base) && path_starts_with_of(raw, base),
        resolve_in_workbook_dir_spec(label, workbook_path, raw) == Ok::<Seq<char>, Seq<char>>(raw),
{
}

/// The extension of a path's file name as `std::path::Path::extension`
/// gives it: what follows its last `.`, `None` where there is none.
pub uninterp spec fn path_extension_of(path: Seq<char>) -> Option<Seq<char>>;

/// Calls `Path::extension` on `path`; the extension is a piece of a `&str`
/// and is handed back as text.
#[verifier::external_body]
fn path_extension(path: &str) -> (r: Option<String>)
    ensures
        match r {
            Some(e) => path_extension_of(path@) == Some(e@),
            None => path_extension_of(path@) is None,
        },
{
    std::path::Path::new(path).extension().map(|e| e.to_string_lossy().into_owned())
}

/// A part of a normalized file name: trimmed, refused where it holds a `/`
/// or a backslash or is `..`, else in ASCII upper case.
pub open spec fn filename_component_spec(s: Seq<char>) -> Result<Seq<char>, Seq<char>> {
    let t = trim_spec(s);
    if find_char(t, '/') is Some || find_char(t, '\\') is Some {
        Err("filename component '"@ + t + "' contains path separator characters"@)
    } else if has_parent_component(t) {
        Err("filename component '"@ + t + "' contains path traversal sequences"@)
    } else {
        Ok(ascii_upper_seq(t))
    }
}

/// A part of a normalized file name.
pub fn sanitize_filename_component(s: &str) -> (r: Result<String, ToolError>)
    ensures
        match r {
            Ok(c) => filename_component_spec(s@) == Ok::<Seq<char>, Seq<char>>(c@),
            Err(e) => e matches ToolError::InvalidInput(m) && filename_component_spec(s@) == Err::<
                Seq<char>,
                Seq<char>,
            >(m@),
        },
{
    let t = trim(s);
    if find_char_index(t, '/').is_some() || find_char_index(t, '\\').is_some() {
        let mut msg = concat("filename component '", t);
        push_str(&mut msg, "' contains path separator characters");
        return Err(ToolError::InvalidInput(msg));
    }
    if path_has_parent_component(t) {
        let mut msg = concat("filename component '", t);
        push_str(&mut msg, "' contains path traversal sequences");
        return Err(ToolError::InvalidInput(msg));
    }
    Ok(to_ascii_uppercase(t))
}

/// What normalizing a document's file name does: the document's path, the
/// path it is renamed to, its proposed and its present file name.
#[derive(Debug, Clone)]
pub struct FilenamePlan {
    pub resolved_path: String,
    pub renamed_path: String,
    pub proposed_name: String,
    pub original_name: String,
}

/// The plan as texts: resolved path, renamed path, proposed name, present
/// name.
pub open spec fn filename_plan_view(p: FilenamePlan) -> (Seq<char>, Seq<char>, Seq<char>, Seq<char>) {
    (p.resolved_path@, p.renamed_path@, p.proposed_name@, p.original_name@)
}

/// The canonical file name `VENDOR--ACCOUNT--YEAR-MONTH--DOCTYPE.ext`.
pub open spec fn proposed_name_spec(
    vendor: Seq<char>,
    account: Seq<char>,
    year_month: Seq<char>,
    doc_type: Seq<char>,
    ext: Seq<char>,
) -> Seq<char> {
    vendor + "--"@ + account + "--"@ + year_month + "--"@ + doc_type + "."@ + ext
}

/// The plan for a document once its parts and its path are accepted: the
/// extension is kept (`pdf` where there is none), the file name is
/// replaced.
pub open spec fn filename_plan_for(
    path: Seq<char>,
    vendor: Seq<char>,
    account: Seq<char>,
    year_month: Seq<char>,
    doc_type: Seq<char>,
) -> (Seq<char>, Seq<char>, Seq<char>, Seq<char>) {
    let ext = match path_extension_of(path) {
        Some(e) => e,
        None => "pdf"@,
    };
    let original = match path_file_name_of(path) {
        Some(n) => n,
        None => Seq::empty(),
    };
    let proposed = proposed_name_spec(vendor, account, year_month, doc_type, ext);
    (path, path_with_file_name_of(path, proposed), proposed, original)
}

/// What normalizing a file name plans, or why it is refused: each part is
/// checked in turn (vendor, account, year-month, document type), then the
/// path is kept inside the workbook's directory.
pub open spec fn filename_plan_spec(
    workbook_path: Seq<char>,
    req: NormalizeFilenameRequest,
) -> Result<(Seq<char>, Seq<char>, Seq<char>, Seq<char>), Seq<char>> {
    match filename_component_spec(req.vendor@) {
        Err(m) => Err(m),
        Ok(v) => match filename_component_spec(req.account@) {
            Err(m) => Err(m),
            Ok(a) => match filename_component_spec(req.year_month@) {
                Err(m) => Err(m),
                Ok(ym) => match filename_component_spec(req.doc_type@) {
                    Err(m) => Err(m),
                    Ok(d) => match resolve_in_workbook_dir_spec("file_path"@, workbook_path, req.file_path@) {
                        Err(m) => Err(m),
                        Ok(p) => Ok(filename_plan_for(p, v, a, ym, d)),
                    },
                },
            },
        },
    }
}

/// Plans the canonical file name of a document of the workbook at
/// `workbook_path`; renaming the file, where the request asks for it, is
/// left to the caller.
pub fn plan_filename_normalization(workbook_path: &str, request: &NormalizeFilenameRequest) -> (r: Result<
    FilenamePlan,
    ToolError,
>)
    ensures
        match r {
            Ok(p) => filename_plan_spec(workbook_path@, *request) == Ok::<
                (Seq<char>, Seq<char>, Seq<char>, Seq<char>),
                Seq<char>,
            >(filename_plan_view(p)),
            Err(e) => e matches ToolError::InvalidInput(m) && filename_plan_spec(workbook_path@, *request)
                == Err::<(Seq<char>, Seq<char>, Seq<char>, Seq<char>), Seq<char>>(m@),
        },
{
    let vendor = match sanitize_filename_component(request.vendor.as_str()) {
        Ok(c) => c,
        Err(e) => return Err(e),
    };
    let account = match sanitize_filename_component(request.account.as_str()) {
        Ok(c) => c,
        Err(e) => return Err(e),
    };
    let year_month = match sanitize_filename_component(request.year_month.as_str()) {
        Ok(c) => c,
        Err(e) => return Err(e),
    };
    let doc_type = match sanitize_filename_component(request.doc_type.as_str()) {
        Ok(c) => c,
        Err(e) => return Err(e),
    };
    let path = match resolve_in_workbook_dir("file_path", workbook_path, request.file_path.as_str()) {
        Ok(p) => p,
        Err(e) => return Err(e),
    };
    let ext = match path_extension(path.as_str()) {
        Some(e) => e,
        None => owned("pdf"),
    };
    let original_name = match path_file_name(path.as_str()) {
        Some(n) => n,
        None => String::new(),
    };
    let mut proposed = concat(vendor.as_str(), "--");
    push_str(&mut proposed, account.as_str());
    push_str(&mut proposed, "--");
    push_str(&mut proposed, year_month.as_str());
    push_str(&mut proposed, "--");
    push_str(&mut proposed, doc_type.as_str());
    push_str(&mut proposed, ".");
    push_str(&mut proposed, ext.as_str());
    let renamed_path = path_with_file_name(path.as_str(), proposed.as_str());
    Ok(FilenamePlan { resolved_path: path, renamed_path, proposed_name: proposed, original_name })
}

} // verus!
