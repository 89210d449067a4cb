use vstd::prelude::*;
use crate::error::{EpistemError, ErrorView};
use crate::manifest::models::{CapabilityManifest, RuntimeType};
use crate::manifest::validation::{IssueView, ManifestValidationReport, ValidationIssue};
use crate::resolver::graph::{has_topological_order, index_limit, is_topological_order, toposort_of};
use crate::resolver::{
    dependency_edges, manifest_names, names_in_order, order_outcome, unresolved_of, DependencyGraph,
    DependencyResolver, PetgraphDependencyResolver,
};
use crate::text::{decimal, join_with, opt_view};
use crate::manifest::models::{default_workspace_name, initial_workspace_version, WorkspaceManifest};
use crate::utils::paths::{joined_path, plain_join, WORKSPACE_FILENAME};

verus! {

/// The text `epistem init` writes to `EPISTEM.md`.
pub const WORKSPACE_DOC: &'static str = "# Epistem Workspace\n\nThis directory was initialized by `epistem init`.\n\nInstalled capabilities live under `capabilities/`.\n\n## Next Steps\n\n- Add installed capabilities under `capabilities/`.\n- Use `epistem learn <capability>` to acquire a capability.\n";

/// One row of the validation table.
#[derive(Debug, Clone, PartialEq, Eq)]
pub struct ValidationRow {
    pub field: String,
    pub value: String,
    pub status: String,
}

/// A row seen as (field, value, status).
pub type RowView = (Seq<char>, Seq<char>, Seq<char>);

impl DeepView for ValidationRow {
    type V = RowView;

    open spec fn deep_view(&self) -> RowView {
        (self.field@, self.value@, self.status@)
    }
}

/// The status word of a row.
pub open spec fn status_of(valid: bool) -> Seq<char> {
    if valid {
        "valid"@
    } else {
        "invalid"@
    }
}

/// A list shown in one cell: its entries with `, ` between them, or `-` when it is empty.
pub open spec fn joined_of(values: Seq<Seq<char>>) -> Seq<char> {
    if values.len() == 0 {
        "-"@
    } else {
        join_with(values, ", "@)
    }
}

/// The name of a runtime type, as its `Debug` form writes it.
pub open spec fn runtime_kind_name(kind: RuntimeType) -> Seq<char> {
    match kind {
        RuntimeType::Available => "Available"@,
        RuntimeType::Launch => "Launch"@,
    }
}

/// The (field, value) pairs shown for a manifest.
pub open spec fn manifest_fields(m: CapabilityManifest) -> Seq<(Seq<char>, Seq<char>)> {
    seq![
        ("name"@, m.name@),
        ("version"@, m.version@),
        ("capabilities"@, joined_of(m.capabilities.deep_view())),
        ("dependencies"@, joined_of(m.dependencies.deep_view())),
        ("keywords"@, joined_of(m.keywords.deep_view())),
        ("runtime"@, runtime_kind_name(m.runtime.kind)),
    ] + (match m.install {
        Some(i) => seq![
            ("install.requires"@, joined_of(i.requires.deep_view())),
            ("install.steps"@, joined_of(i.steps.deep_view())),
        ],
        None => Seq::empty(),
    }) + (match m.prompt {
        Some(p) => seq![("prompt"@, p@)],
        None => Seq::empty(),
    }) + (match m.tests {
        Some(t) => seq![
            ("tests.startup"@, match opt_view(t.startup) {
                Some(s) => s,
                None => "-"@,
            }),
            ("tests.smoke"@, match opt_view(t.smoke) {
                Some(s) => s,
                None => "-"@,
            }),
        ],
        None => Seq::empty(),
    })
}

/// Rows for (field, value) pairs, all with the same status.
pub open spec fn rows_of(fields: Seq<(Seq<char>, Seq<char>)>, valid: bool) -> Seq<RowView> {
    fields.map_values(|f: (Seq<char>, Seq<char>)| (f.0, f.1, status_of(valid)))
}

/// The rows of the issues: `issue: field`, the message, `invalid`.
pub open spec fn issue_rows_of(issues: Seq<IssueView>) -> Seq<RowView> {
    issues.map_values(|i: IssueView| ("issue: "@ + i.0, i.1, "invalid"@))
}

/// The rows of a validation report: its path, the manifest's fields, then its issues.
pub open spec fn report_rows(r: ManifestValidationReport) -> Seq<RowView> {
    rows_of(seq![("path"@, r.path@)], r.valid) + (match r.manifest {
        Some(m) => rows_of(manifest_fields(m), r.valid),
        None => Seq::empty(),
    }) + issue_rows_of(r.issues.deep_view())
}

/// How many bytes a text takes in UTF-8 (as `str::len` gives it): what a column width is
/// measured in.
pub open spec fn byte_len(s: Seq<char>) -> usize {
    vstd::utf8::encode_utf8(s).len() as usize
}

/// The width of a column: the byte length of its widest cell, and at least that of its
/// heading.
pub open spec fn column_width(cells: Seq<Seq<char>>, heading: Seq<char>) -> nat
    decreases cells.len(),
{
    if cells.len() == 0 {
        byte_len(heading) as nat
    } else {
        let w = column_width(cells.drop_last(), heading);
        if byte_len(cells.last()) > w {
            byte_len(cells.last()) as nat
        } else {
            w
        }
    }
}

/// A cell left-aligned in a column of `width` characters (padding never cuts a cell).
pub open spec fn padded(s: Seq<char>, width: nat) -> Seq<char> {
    if s.len() < width {
        s + Seq::new((width - s.len()) as nat, |i: int| ' ')
    } else {
        s
    }
}

/// A line of the table.
pub open spec fn table_line(f: Seq<char>, v: Seq<char>, s: Seq<char>, w: (nat, nat, nat)) -> Seq<char> {
    "| "@ + padded(f, w.0) + " | "@ + padded(v, w.1) + " | "@ + padded(s, w.2) + " |"@
}

/// The separator line of the table.
pub open spec fn separator_line(w: (nat, nat, nat)) -> Seq<char> {
    "+-"@ + Seq::new(w.0, |i: int| '-') + "-+-"@ + Seq::new(w.1, |i: int| '-') + "-+-"@ + Seq::new(
        w.2,
        |i: int| '-',
    ) + "-+"@
}

/// The column widths of a table of rows.
pub open spec fn widths_of(rows: Seq<RowView>) -> (nat, nat, nat) {
    (
        column_width(rows.map_values(|r: RowView| r.0), "Field"@),
        column_width(rows.map_values(|r: RowView| r.1), "Value"@),
        column_width(rows.map_values(|r: RowView| r.2), "Status"@),
    )
}

/// The lines of the validation table: a separator, the heading, a separator, one line per
/// row, and a closing separator.
pub open spec fn table_lines(rows: Seq<RowView>) -> Seq<Seq<char>> {
    let w = widths_of(rows);
    seq![separator_line(w), table_line("Field"@, "Value"@, "Status"@, w), separator_line(w)]
        + rows.map_values(|r: RowView| table_line(r.0, r.1, r.2, w)) + seq![separator_line(w)]
}

/// The status word of a row.
pub fn status(valid: bool) -> (s: String)
    ensures
        s@ == status_of(valid),
{
    if valid {
        crate::text::owned("valid")
    } else {
        crate::text::owned("invalid")
    }
}

/// A row with the status of `valid`.
pub fn validation_row(field: String, value: String, valid: bool) -> (r: ValidationRow)
    ensures
        r.deep_view() == (field@, value@, status_of(valid)),
{
    ValidationRow { field, value, status: status(valid) }
}

/// Rows for (field, value) pairs, all with the status of `valid`.
pub fn rows_from_fields(fields: Vec<(String, String)>, valid: bool) -> (r: Vec<ValidationRow>)
    ensures
        r.deep_view() == rows_of(fields@.map_values(|f: (String, String)| (f.0@, f.1@)), valid),
{
    let ghost spec_rows = rows_of(fields@.map_values(|f: (String, String)| (f.0@, f.1@)), valid);
    let mut fields = fields;
    let ghost all = fields@;
    let mut rev: Vec<ValidationRow> = Vec::new();
    while fields.len() > 0
        invariant
            all.len() == fields@.len() + rev@.len(),
            forall|k: int| 0 <= k < fields@.len() ==> fields@[k] == all[k],
            forall|k: int|
                0 <= k < rev@.len() ==> (#[trigger] rev@[k]).deep_view() == spec_rows[all.len()
                    - 1 - k],
            spec_rows == rows_of(all.map_values(|f: (String, String)| (f.0@, f.1@)), valid),
        decreases fields@.len(),
    {
        let (f, v) = fields.pop().unwrap();
        let row = validation_row(f, v, valid);
        rev.push(row);
    }
    let mut r: Vec<ValidationRow> = Vec::new();
    while rev.len() > 0
        invariant
            all.len() == rev@.len() + r@.len(),
            forall|k: int|
                0 <= k < rev@.len() ==> (#[trigger] rev@[k]).deep_view() == spec_rows[all.len()
                    - 1 - k],
            r.deep_view() == spec_rows.take(r@.len() as int),
            spec_rows.len() == all.len(),
        decreases rev@.len(),
    {
        let ghost before = r.deep_view();
        let ghost n = r@.len();
        let row = rev.pop().unwrap();
        assert(row.deep_view() == spec_rows[n as int]);
        r.push(row);
        assert(r.deep_view() =~= before.push(spec_rows[n as int]));
        assert(spec_rows.take(n + 1 as int) =~= spec_rows.take(n as int).push(spec_rows[n as int]));
    }
    assert(spec_rows.take(all.len() as int) =~= spec_rows);
    r
}

/// A list shown in one cell: its entries with `, ` between them, or `-` when it is empty.
pub fn joined(values: &Vec<String>) -> (s: String)
    ensures
        s@ == joined_of(values.deep_view()),
{
    if values.len() == 0 {
        crate::text::owned("-")
    } else {
        crate::text::join_texts(values, ", ")
    }
}

fn runtime_name(kind: RuntimeType) -> (s: String)
    ensures
        s@ == runtime_kind_name(kind),
{
    match kind {
        RuntimeType::Available => crate::text::owned("Available"),
        RuntimeType::Launch => crate::text::owned("Launch"),
    }
}

fn text_or_dash(o: &Option<String>) -> (s: String)
    ensures
        s@ == (match opt_view(*o) {
            Some(t) => t,
            None => "-"@,
        }),
{
    match o {
        Some(t) => crate::text::owned(t.as_str()),
        None => crate::text::owned("-"),
    }
}

fn pair(a: &str, b: String) -> (p: (String, String))
    ensures
        p.0@ == a@,
        p.1@ == b@,
{
    (crate::text::owned(a), b)
}

/// The rows of a manifest, all with the status of `valid`.
pub fn manifest_rows(manifest: &CapabilityManifest, valid: bool) -> (r: Vec<ValidationRow>)
    ensures
        r.deep_view() == rows_of(manifest_fields(*manifest), valid),
{
    let mut fields: Vec<(String, String)> = Vec::new();
    fields.push(pair("name", crate::text::owned(manifest.name.as_str())));
    fields.push(pair("version", crate::text::owned(manifest.version.as_str())));
    fields.push(pair("capabilities", joined(&manifest.capabilities)));
    fields.push(pair("dependencies", joined(&manifest.dependencies)));
    fields.push(pair("keywords", joined(&manifest.keywords)));
    fields.push(pair("runtime", runtime_name(manifest.runtime.kind)));
    if let Some(install) = &manifest.install {
        fields.push(pair("install.requires", joined(&install.requires)));
        fields.push(pair("install.steps", joined(&install.steps)));
    }
    if let Some(prompt) = &manifest.prompt {
        fields.push(pair("prompt", crate::text::owned(prompt.as_str())));
    }
    if let Some(tests) = &manifest.tests {
        fields.push(pair("tests.startup", text_or_dash(&tests.startup)));
        fields.push(pair("tests.smoke", text_or_dash(&tests.smoke)));
    }
    assert(fields@.map_values(|f: (String, String)| (f.0@, f.1@)) =~= manifest_fields(*manifest));
    rows_from_fields(fields, valid)
}

/// The rows of the issues: `issue: field`, the message, `invalid`.
pub fn issue_rows(issues: &Vec<ValidationIssue>) -> (r: Vec<ValidationRow>)
    ensures
        r.deep_view() == issue_rows_of(issues.deep_view()),
{
    let ghost spec_rows = issue_rows_of(issues.deep_view());
    let mut r: Vec<ValidationRow> = Vec::new();
    let mut i: usize = 0;
    while i < issues.len()
        invariant
            i <= issues@.len(),
            spec_rows == issue_rows_of(issues.deep_view()),
            r.deep_view() == spec_rows.take(i as int),
        decreases issues@.len() - i,
    {
        let field = crate::text::concat("issue: ", issues[i].field.as_str());
        let row = validation_row(field, crate::text::owned(issues[i].message.as_str()), false);
        let ghost before = r.deep_view();
        assert(row.deep_view() == spec_rows[i as int]);
        r.push(row);
        assert(r.deep_view() =~= before.push(spec_rows[i as int]));
        assert(spec_rows.take(i + 1) =~= spec_rows.take(i as int).push(spec_rows[i as int]));
        i = i + 1;
    }
    assert(spec_rows.take(issues@.len() as int) =~= spec_rows);
    r
}

fn append_rows(a: &mut Vec<ValidationRow>, b: Vec<ValidationRow>)
    ensures
        final(a).deep_view() == old(a).deep_view() + b.deep_view(),
{
    let mut b = b;
    let ghost av = a.deep_view();
    let ghost bv = b.deep_view();
    a.append(&mut b);
    assert(a.deep_view() =~= av + bv);
}

/// The rows of a validation report: its path, the manifest's fields, then its issues.
pub fn validation_rows(report: &ManifestValidationReport) -> (r: Vec<ValidationRow>)
    ensures
        r.deep_view() == report_rows(*report),
{
    let mut first: Vec<(String, String)> = Vec::new();
    first.push(pair("path", crate::text::owned(report.path.as_str())));
    assert(first@.map_values(|f: (String, String)| (f.0@, f.1@)) =~= seq![("path"@, report.path@)]);
    let mut rows = rows_from_fields(first, report.valid);
    match &report.manifest {
        Some(m) => append_rows(&mut rows, manifest_rows(m, report.valid)),
        None => {
            let empty: Vec<ValidationRow> = Vec::new();
            assert(empty.deep_view() =~= Seq::<RowView>::empty());
            append_rows(&mut rows, empty);
        },
    }
    append_rows(&mut rows, issue_rows(&report.issues));
    rows
}

fn byte_length(s: &String) -> (n: usize)
    ensures
        n == byte_len(s@),
{
    s.as_str().len()
}

fn width_of_column(rows: &Vec<ValidationRow>, column: u8, heading: &str) -> (w: usize)
    requires
        column < 3,
    ensures
        w == column_width(
            rows.deep_view().map_values(
                |r: RowView| if column == 0 {
                    r.0
                } else if column == 1 {
                    r.1
                } else {
                    r.2
                },
            ),
            heading@,
        ),
{
    let ghost cells = rows.deep_view().map_values(
        |r: RowView| if column == 0 {
            r.0
        } else if column == 1 {
            r.1
        } else {
            r.2
        },
    );
    let mut w: usize = heading.len();
    assert(w == byte_len(heading@));
    let mut i: usize = 0;
    while i < rows.len()
        invariant
            column < 3,
            i <= rows@.len(),
            cells == rows.deep_view().map_values(
                |r: RowView| if column == 0 {
                    r.0
                } else if column == 1 {
                    r.1
                } else {
                    r.2
                },
            ),
            w == column_width(cells.take(i as int), heading@),
        decreases rows@.len() - i,
    {
        let cell = if column == 0 {
            &rows[i].field
        } else if column == 1 {
            &rows[i].value
        } else {
            &rows[i].status
        };
        assert(cell@ == cells[i as int]);
        let n = byte_length(cell);
        assert(cells.take(i + 1).drop_last() =~= cells.take(i as int));
        if n > w {
            w = n;
        }
        i = i + 1;
    }
    assert(cells.take(rows@.len() as int) =~= cells);
    w
}

fn padded_text(s: &str, width: usize) -> (r: String)
    ensures
        r@ == padded(s@, width as nat),
{
    let n = crate::text::chars_of(s).len();
    let mut r = crate::text::owned(s);
    if n < width {
        let mut k: usize = n;
        while k < width
            invariant
                n <= k <= width,
                n == s@.len(),
                r@ == s@ + Seq::new((k - n) as nat, |i: int| ' '),
            decreases width - k,
        {
            crate::text::push_char(&mut r, ' ');
            assert(r@ =~= s@ + Seq::new((k + 1 - n) as nat, |i: int| ' '));
            k = k + 1;
        }
    }
    r
}

fn dashes(n: usize) -> (r: String)
    ensures
        r@ == Seq::new(n as nat, |i: int| '-'),
{
    let mut r = String::new();
    let mut k: usize = 0;
    while k < n
        invariant
            k <= n,
            r@ == Seq::new(k as nat, |i: int| '-'),
        decreases n - k,
    {
        crate::text::push_char(&mut r, '-');
        assert(r@ =~= Seq::new((k + 1) as nat, |i: int| '-'));
        k = k + 1;
    }
    r
}

fn line_of(f: &str, v: &str, s: &str, w: (usize, usize, usize)) -> (r: String)
    ensures
        r@ == table_line(f@, v@, s@, (w.0 as nat, w.1 as nat, w.2 as nat)),
{
    let mut r = crate::text::owned("| ");
    r.append(padded_text(f, w.0).as_str());
    r.append(" | ");
    r.append(padded_text(v, w.1).as_str());
    r.append(" | ");
    r.append(padded_text(s, w.2).as_str());
    r.append(" |");
    r
}

fn separator(w: (usize, usize, usize)) -> (r: String)
    ensures
        r@ == separator_line((w.0 as nat, w.1 as nat, w.2 as nat)),
{
    let mut r = crate::text::owned("+-");
    r.append(dashes(w.0).as_str());
    r.append("-+-");
    r.append(dashes(w.1).as_str());
    r.append("-+-");
    r.append(dashes(w.2).as_str());
    r.append("-+");
    r
}

/// The lines of the validation table of the rows.
pub fn validation_table(rows: &Vec<ValidationRow>) -> (r: Vec<String>)
    ensures
        r.deep_view() == table_lines(rows.deep_view()),
{
    let fw = width_of_column(rows, 0, "Field");
    let vw = width_of_column(rows, 1, "Value");
    let sw = width_of_column(rows, 2, "Status");
    let w = (fw, vw, sw);
    let ghost wn = (fw as nat, vw as nat, sw as nat);
    assert(rows.deep_view().map_values(|r: RowView| r.0) =~= rows.deep_view().map_values(
        |r: RowView| if 0u8 == 0 {
            r.0
        } else if 0u8 == 1 {
            r.1
        } else {
            r.2
        },
    ));
    assert(rows.deep_view().map_values(|r: RowView| r.1) =~= rows.deep_view().map_values(
        |r: RowView| if 1u8 == 0 {
            r.0
        } else if 1u8 == 1 {
            r.1
        } else {
            r.2
        },
    ));
    assert(rows.deep_view().map_values(|r: RowView| r.2) =~= rows.deep_view().map_values(
        |r: RowView| if 2u8 == 0 {
            r.0
        } else if 2u8 == 1 {
            r.1
        } else {
            r.2
        },
    ));
    assert(wn == widths_of(rows.deep_view()));
    let ghost body = rows.deep_view().map_values(|r: RowView| table_line(r.0, r.1, r.2, wn));
    let mut out: Vec<String> = Vec::new();
    out.push(separator(w));
    out.push(line_of("Field", "Value", "Status", w));
    out.push(separator(w));
    let ghost head = out.deep_view();
    let mut i: usize = 0;
    while i < rows.len()
        invariant
            i <= rows@.len(),
            wn == (w.0 as nat, w.1 as nat, w.2 as nat),
            body == rows.deep_view().map_values(|r: RowView| table_line(r.0, r.1, r.2, wn)),
            out.deep_view() == head + body.take(i as int),
        decreases rows@.len() - i,
    {
        let line = line_of(rows[i].field.as_str(), rows[i].value.as_str(), rows[i].status.as_str(), w);
        let ghost before = out.deep_view();
        assert(line@ == body[i as int]);
        out.push(line);
        assert(out.deep_view() =~= before.push(body[i as int]));
        assert(body.take(i + 1) =~= body.take(i as int).push(body[i as int]));
        i = i + 1;
    }
    assert(body.take(rows@.len() as int) =~= body);
    let ghost before = out.deep_view();
    out.push(separator(w));
    assert(out.deep_view() =~= before.push(separator_line(wn)));
    assert(out.deep_view() =~= table_lines(rows.deep_view()));
    out
}

/// What `epistem graph` shows for the manifests of the installed capabilities: the nodes
/// and the number of edges, then either the topological order (and the unresolved
/// requirements, if any) or the error that ordering gave.
pub open spec fn graph_report_of(ms: Seq<CapabilityManifest>) -> (Seq<Seq<char>>, Result<
    Seq<Seq<char>>,
    ErrorView,
>) {
    let names = manifest_names(ms);
    let head = seq![
        "nodes: "@ + join_with(names, ", "@),
        "edges: "@ + decimal(dependency_edges(ms).len()),
    ];
    let unresolved = unresolved_of(ms);
    (
        head,
        match order_outcome(names, toposort_of(names, dependency_edges(ms))) {
            Ok(order) => Ok(
                seq!["order: "@ + join_with(order, ", "@)] + if unresolved.len() == 0 {
                    Seq::empty()
                } else {
                    seq!["unresolved: "@ + join_with(unresolved, ", "@)]
                },
            ),
            Err(e) => Err(e),
        },
    )
}

/// The lines `epistem graph` prints for the manifests of the installed capabilities: the
/// lines shown before ordering, and then the rest of the lines or the error of ordering.
pub fn graph_report(manifests: &[CapabilityManifest]) -> (r: (Vec<String>, Result<
    Vec<String>,
    EpistemError,
>))
    requires
        manifests@.len() < index_limit(),
        dependency_edges(manifests@).len() < index_limit(),
    ensures
        r.0.deep_view() == graph_report_of(manifests@).0,
        match r.1 {
            Ok(lines) => graph_report_of(manifests@).1 == Ok::<Seq<Seq<char>>, ErrorView>(
                lines.deep_view(),
            ),
            Err(e) => graph_report_of(manifests@).1 == Err::<Seq<Seq<char>>, ErrorView>(e@),
        },
        match r.1 {
            Ok(lines) => lines@.len() > 0 && exists|order: Seq<usize>|
                is_topological_order(manifests@.len(), dependency_edges(manifests@), order)
                    && lines@[0]@ == "order: "@ + join_with(
                    names_in_order(manifest_names(manifests@), order),
                    ", "@,
                ),
            Err(_) => !has_topological_order(manifests@.len(), dependency_edges(manifests@)),
        },
{
    let resolver = PetgraphDependencyResolver;
    let graph = resolver.build(manifests).unwrap();
    let nodes = graph.nodes();
    let edges = graph.edges();
    assert(edges@.len() == edges.deep_view().len());
    assert(edges@.len() == dependency_edges(manifests@).len());
    assert(nodes.deep_view() == manifest_names(manifests@));
    let mut head: Vec<String> = Vec::new();
    head.push(crate::text::concat("nodes: ", crate::text::join_texts(&nodes, ", ").as_str()));
    head.push(crate::text::concat("edges: ", crate::text::decimal_text(edges.len()).as_str()));
    assert(head.deep_view() =~= graph_report_of(manifests@).0);
    match graph.topological_order() {
        Err(e) => (head, Err(e)),
        Ok(order) => {
            let mut tail: Vec<String> = Vec::new();
            tail.push(crate::text::concat("order: ", crate::text::join_texts(&order, ", ").as_str()));
            let unresolved = graph.unresolved_requirements();
            if unresolved.len() > 0 {
                tail.push(
                    crate::text::concat(
                        "unresolved: ",
                        crate::text::join_texts(&unresolved, ", ").as_str(),
                    ),
                );
            }
            assert(tail.deep_view() =~= graph_report_of(manifests@).1->Ok_0);
            (head, Ok(tail))
        },
    }
}


/// The command line of `epistem`: the registry to read, if one is named, and the command.
#[derive(Debug)]
pub struct Cli {
    pub registry: Option<String>,
    pub command: Commands,
}

/// The commands of `epistem`.
#[derive(Debug)]
pub enum Commands {
    /// Scaffold a new workspace directory.
    Init { directory: Option<String> },
    /// Validate the capability manifest of a provider directory.
    Validate { path: String },
    Install,
    /// Learn a capability into the current workspace.
    Learn { capability: String },
    /// Show how the installed capabilities depend on each other.
    Graph,
    Search,
}

/// The notice a command prints when it is not implemented yet; none for the others.
pub open spec fn pending_notice_of(command: Commands) -> Option<Seq<char>> {
    match command {
        Commands::Install => Some("install is not implemented yet"@),
        Commands::Search => Some("search is not implemented yet"@),
        _ => None,
    }
}

/// The notice a command prints when it is not implemented yet; none for the others.
pub fn pending_notice(command: &Commands) -> (r: Option<String>)
    ensures
        opt_view(r) == pending_notice_of(*command),
{
    match command {
        Commands::Install => Some(crate::text::owned("install is not implemented yet")),
        Commands::Search => Some(crate::text::owned("search is not implemented yet")),
        _ => None,
    }
}

/// The line `epistem learn` prints on success.
pub fn learned_line(outcome: &crate::learn::LearnOutcome) -> (r: String)
    ensures
        r@ == "learned capability "@ + outcome.capability@ + " into "@ + outcome.provider_root@,
{
    crate::text::concat3(
        crate::text::concat("learned capability ", outcome.capability.as_str()).as_str(),
        " into ",
        outcome.provider_root.as_str(),
    )
}

/// The line `epistem init` prints once the workspace is scaffolded.
pub fn initialized_line(directory: &str) -> (r: String)
    ensures
        r@ == "initialized capability workspace in "@ + directory@,
{
    crate::text::concat("initialized capability workspace in ", directory)
}

/// The lines `epistem validate` prints for a validation report: the table of its rows.
pub fn validate(report: &ManifestValidationReport) -> (r: Vec<String>)
    ensures
        r.deep_view() == table_lines(report_rows(*report)),
{
    let rows = validation_rows(report);
    validation_table(&rows)
}


/// What `epistem init` writes into a target directory.
#[derive(Debug)]
pub struct InitPlan {
    /// The directory learned capabilities go to.
    pub capabilities_dir: String,
    /// Where the workspace manifest is written, unless a file is already there.
    pub manifest_path: String,
    /// The workspace manifest of the new workspace.
    pub workspace: WorkspaceManifest,
    /// Where the workspace's guide (`WORKSPACE_DOC`) is written, unless a file is already there.
    pub guide_path: String,
}

/// What `epistem init` writes into `target_dir`, whose last component is `directory_name`
/// when it has a readable one.
pub fn init_plan(target_dir: &str, directory_name: Option<&str>) -> (p: InitPlan)
    ensures
        p.capabilities_dir@ == joined_path(target_dir@, "capabilities"@),
        p.manifest_path@ == joined_path(target_dir@, WORKSPACE_FILENAME@),
        p.guide_path@ == joined_path(target_dir@, "EPISTEM.md"@),
        target_dir@.len() > 0 ==> p.capabilities_dir@ == plain_join(target_dir@, "capabilities"@)
            && p.manifest_path@ == plain_join(target_dir@, WORKSPACE_FILENAME@)
            && p.guide_path@ == plain_join(target_dir@, "EPISTEM.md"@),
        p.workspace.name@ == (match directory_name {
            Some(n) => n@,
            None => default_workspace_name(),
        }),
        p.workspace.version@ == initial_workspace_version(),
        p.workspace.capabilities@.len() == 0,
{
    InitPlan {
        capabilities_dir: crate::utils::paths::path_join(target_dir, "capabilities"),
        manifest_path: crate::utils::paths::path_join(target_dir, WORKSPACE_FILENAME),
        workspace: WorkspaceManifest::fresh(directory_name),
        guide_path: crate::utils::paths::path_join(target_dir, "EPISTEM.md"),
    }
}

} // verus!
