//! Which modules a template variable denotes.
//!
//! A variable is the identifier of a builtin module, the word `custom` for
//! every custom module that the template does not name itself, `custom.`
//! followed by the id of one custom module, or the wildcard `all` for the
//! builtin modules in their fixed order. Anything else denotes nothing.

use vstd::prelude::*;
use vstd::string::StringExecFns;
use crate::config::{
    lemma_first_definition_decides, lemma_no_definition_decides, Context, CustomModule,
};
use crate::text::{contains_text, has_prefix, same_text, strip_prefix, views_of};

verus! {

/// A module that is to be computed.
pub enum ModuleRequest {
    /// The builtin module with this identifier.
    Builtin(String),
    /// The custom module with this id.
    Custom(String),
}

/// A request as plain values.
pub enum RequestView {
    Builtin(Seq<char>),
    Custom(Seq<char>),
}

impl View for ModuleRequest {
    type V = RequestView;

    open spec fn view(&self) -> RequestView {
        match self {
            ModuleRequest::Builtin(name) => RequestView::Builtin(name@),
            ModuleRequest::Custom(id) => RequestView::Custom(id@),
        }
    }
}

/// The views of a list of requests.
pub open spec fn request_views(requests: Seq<ModuleRequest>) -> Seq<RequestView> {
    Seq::new(requests.len(), |i: int| requests[i]@)
}

/// Why a variable denotes nothing although it was not switched off.
#[derive(Clone, Copy, Debug, PartialEq, Eq, Structural)]
pub enum Diagnostic {
    /// The variable names a custom module, and the configuration defines no
    /// custom module at all.
    NoCustomModules,
    /// The variable names a custom module that the configuration does not
    /// define, though it defines others.
    CustomModuleNotFound,
    /// The variable is no identifier that the template may use.
    UnknownModule,
}

/// What a variable denotes, and what there is to report about it.
pub struct Resolution {
    pub requests: Vec<ModuleRequest>,
    pub diagnostic: Option<Diagnostic>,
}

/// A variable that denotes nothing, and why.
pub struct Report {
    pub name: String,
    pub diagnostic: Diagnostic,
}

/// A report as plain values.
pub struct ReportView {
    pub name: Seq<char>,
    pub diagnostic: Diagnostic,
}

impl View for Report {
    type V = ReportView;

    open spec fn view(&self) -> ReportView {
        ReportView { name: self.name@, diagnostic: self.diagnostic }
    }
}

/// The views of a list of reports.
pub open spec fn report_views(reports: Seq<Report>) -> Seq<ReportView> {
    Seq::new(reports.len(), |i: int| reports[i]@)
}

/// The modules to compute for one or more variables, and what there is to
/// report about those variables, both in the order of the variables.
pub struct Plan {
    pub requests: Vec<ModuleRequest>,
    pub reports: Vec<Report>,
}

/// The variable under which the template names the custom module `id`
/// itself.
pub open spec fn explicit_name(id: Seq<char>) -> Seq<char> {
    "custom."@ + id
}

/// Whether the word `custom` stands for the given definition too: it does
/// unless the template names that module itself or the definition is switched
/// off.
pub open spec fn added_implicitly(definition: CustomModule, listed: Seq<Seq<char>>) -> bool {
    !listed.contains(explicit_name(definition.id@)) && !definition.disabled
}

/// Whether the word `custom` stands for the given definition too, in a
/// template that uses the variables of `module_list`.
pub fn should_add_implicit_custom_module(
    definition: &CustomModule,
    module_list: &Vec<String>,
) -> (add: bool)
    ensures
        add == added_implicitly(*definition, views_of(module_list@)),
{
    let mut explicit_module_name = String::from_str("custom.");
    explicit_module_name.append(definition.id.as_str());
    let is_explicitly_specified = contains_text(module_list, explicit_module_name.as_str());
    if is_explicitly_specified {
        return false;
    }
    !definition.disabled
}

/// The custom modules, among the first `upto` definitions, that the word
/// `custom` stands for, in the order of their definitions.
pub open spec fn implicit_customs(
    definitions: Seq<CustomModule>,
    upto: int,
    listed: Seq<Seq<char>>,
) -> Seq<RequestView>
    decreases upto,
{
    if upto <= 0 {
        Seq::empty()
    } else {
        let before = implicit_customs(definitions, upto - 1, listed);
        if added_implicitly(definitions[upto - 1], listed) {
            before.push(RequestView::Custom(definitions[upto - 1].id@))
        } else {
            before
        }
    }
}

/// What the word `custom` stands for.
pub open spec fn all_implicit_customs(context: Context, listed: Seq<Seq<char>>) -> Seq<
    RequestView,
> {
    match context.config.custom {
        Some(definitions) => implicit_customs(definitions@, definitions@.len() as int, listed),
        None => Seq::empty(),
    }
}

/// The modules that the variable `name` denotes, other than the wildcard.
pub open spec fn resolved(context: Context, name: Seq<char>, listed: Seq<Seq<char>>) -> Seq<
    RequestView,
> {
    if context.is_builtin(name) {
        if context.module_disabled(name) {
            Seq::empty()
        } else {
            seq![RequestView::Builtin(name)]
        }
    } else if name == "custom"@ {
        all_implicit_customs(context, listed)
    } else if has_prefix(name, "custom."@) {
        let id = name.skip("custom."@.len() as int);
        if context.custom_module_disabled(id) == Some(false) {
            seq![RequestView::Custom(id)]
        } else {
            Seq::empty()
        }
    } else {
        Seq::empty()
    }
}

/// What there is to report about the variable `name`.
pub open spec fn diagnosed(context: Context, name: Seq<char>) -> Option<Diagnostic> {
    if context.is_builtin(name) || name == "custom"@ {
        None
    } else if has_prefix(name, "custom."@) {
        let id = name.skip("custom."@.len() as int);
        if context.custom_module_disabled(id) is Some {
            None
        } else if context.config.custom is Some {
            Some(Diagnostic::CustomModuleNotFound)
        } else {
            Some(Diagnostic::NoCustomModules)
        }
    } else {
        Some(Diagnostic::UnknownModule)
    }
}

/// Decides which modules the variable `module` denotes in a template that
/// uses the variables of `module_list`. A variable that denotes nothing is
/// no error: it yields no request, and a diagnostic where the user may have
/// meant something else.
pub fn handle_module(module: &str, context: &Context, module_list: &Vec<String>) -> (resolution:
    Resolution)
    ensures
        request_views(resolution.requests@) == resolved(*context, module@, views_of(module_list@)),
        resolution.diagnostic == diagnosed(*context, module@),
{
    let mut requests: Vec<ModuleRequest> = Vec::new();
    let mut diagnostic: Option<Diagnostic> = None;
    let ghost listed = views_of(module_list@);
    if context.is_builtin_module(module) {
        if !context.is_module_disabled_in_config(module) {
            requests.push(ModuleRequest::Builtin(String::from_str(module)));
            assert(request_views(requests@) =~= seq![RequestView::Builtin(module@)]);
        } else {
            assert(request_views(requests@) =~= Seq::empty());
        }
    } else if same_text(module, "custom") {
        match &context.config.custom {
            Some(definitions) => {
                let mut i: usize = 0;
                assert(request_views(requests@) =~= Seq::empty());
                while i < definitions.len()
                    invariant
                        i <= definitions.len(),
                        listed == views_of(module_list@),
                        request_views(requests@) == implicit_customs(
                            definitions@,
                            i as int,
                            listed,
                        ),
                    decreases definitions.len() - i,
                {
                    let ghost before = request_views(requests@);
                    if should_add_implicit_custom_module(&definitions[i], module_list) {
                        requests.push(ModuleRequest::Custom(definitions[i].id.clone()));
                        assert(request_views(requests@) =~= before.push(
                            RequestView::Custom(definitions@[i as int].id@),
                        ));
                    }
                    i += 1;
                }
            },
            None => {
                assert(request_views(requests@) =~= Seq::empty());
            },
        }
    } else {
        match strip_prefix(module, "custom.") {
            Some(id) => {
                match context.is_custom_module_disabled_in_config(id.as_str()) {
                    Some(true) => {
                        assert(request_views(requests@) =~= Seq::empty());
                    },
                    Some(false) => {
                        requests.push(ModuleRequest::Custom(id));
                        assert(request_views(requests@) =~= seq![RequestView::Custom(id@)]);
                    },
                    None => {
                        assert(request_views(requests@) =~= Seq::empty());
                        if context.config.custom.is_some() {
                            diagnostic = Some(Diagnostic::CustomModuleNotFound);
                        } else {
                            diagnostic = Some(Diagnostic::NoCustomModules);
                        }
                    },
                }
            },
            None => {
                assert(request_views(requests@) =~= Seq::empty());
                diagnostic = Some(Diagnostic::UnknownModule);
            },
        }
    }
    Resolution { requests, diagnostic }
}

/// The report about the variable `name`, if there is one.
pub open spec fn reported(context: Context, name: Seq<char>) -> Seq<ReportView> {
    match diagnosed(context, name) {
        Some(diagnostic) => seq![ReportView { name, diagnostic }],
        None => Seq::empty(),
    }
}

/// What the wildcard stands for after the first `upto` builtin modules of the
/// fixed order: what each of them denotes, one after the other.
pub open spec fn wildcard_upto(context: Context, upto: int, listed: Seq<Seq<char>>) -> Seq<
    RequestView,
>
    decreases upto,
{
    if upto <= 0 {
        Seq::empty()
    } else {
        wildcard_upto(context, upto - 1, listed) + resolved(
            context,
            context.modules.prompt_order@[upto - 1]@,
            listed,
        )
    }
}

/// What the wildcard stands for: every builtin module of the fixed order.
pub open spec fn wildcard(context: Context, listed: Seq<Seq<char>>) -> Seq<RequestView> {
    wildcard_upto(context, context.modules.prompt_order@.len() as int, listed)
}

/// The reports about the first `upto` names of the fixed order.
pub open spec fn wildcard_reports_upto(context: Context, upto: int) -> Seq<ReportView>
    decreases upto,
{
    if upto <= 0 {
        Seq::empty()
    } else {
        wildcard_reports_upto(context, upto - 1) + reported(
            context,
            context.modules.prompt_order@[upto - 1]@,
        )
    }
}

/// The reports about the names of the fixed order.
pub open spec fn wildcard_reports(context: Context) -> Seq<ReportView> {
    wildcard_reports_upto(context, context.modules.prompt_order@.len() as int)
}

/// Adds what `module` denotes to `plan`, and the report about it, if any.
fn plan_module(plan: &mut Plan, module: &str, context: &Context, module_list: &Vec<String>)
    ensures
        request_views(final(plan).requests@) == request_views(old(plan).requests@) + resolved(
            *context,
            module@,
            views_of(module_list@),
        ),
        report_views(final(plan).reports@) == report_views(old(plan).reports@) + reported(
            *context,
            module@,
        ),
{
    let ghost requests_before = request_views(plan.requests@);
    let ghost reports_before = report_views(plan.reports@);
    let mut resolution = handle_module(module, context, module_list);
    let ghost added = request_views(resolution.requests@);
    plan.requests.append(&mut resolution.requests);
    assert(request_views(plan.requests@) =~= requests_before + added);
    match resolution.diagnostic {
        Some(diagnostic) => {
            plan.reports.push(Report { name: String::from_str(module), diagnostic });
            assert(report_views(plan.reports@) =~= reports_before + reported(*context, module@));
        },
        None => {
            assert(report_views(plan.reports@) =~= reports_before + reported(*context, module@));
        },
    }
}

/// Adds what the wildcard stands for to `plan`, and the reports about the
/// names of the fixed order.
fn plan_wildcard(plan: &mut Plan, context: &Context, module_list: &Vec<String>)
    ensures
        request_views(final(plan).requests@) == request_views(old(plan).requests@) + wildcard(
            *context,
            views_of(module_list@),
        ),
        report_views(final(plan).reports@) == report_views(old(plan).reports@)
            + wildcard_reports(*context),
{
    let ghost listed = views_of(module_list@);
    let ghost requests_before = request_views(plan.requests@);
    let ghost reports_before = report_views(plan.reports@);
    let mut i: usize = 0;
    assert(request_views(plan.requests@) =~= requests_before + wildcard_upto(*context, 0, listed));
    assert(report_views(plan.reports@) =~= reports_before + wildcard_reports_upto(*context, 0));
    while i < context.modules.prompt_order.len()
        invariant
            i <= context.modules.prompt_order.len(),
            listed == views_of(module_list@),
            request_views(plan.requests@) == requests_before + wildcard_upto(
                *context,
                i as int,
                listed,
            ),
            report_views(plan.reports@) == reports_before + wildcard_reports_upto(
                *context,
                i as int,
            ),
        decreases context.modules.prompt_order.len() - i,
    {
        let ghost name = context.modules.prompt_order@[i as int]@;
        plan_module(plan, context.modules.prompt_order[i].as_str(), context, module_list);
        i += 1;
        assert(request_views(plan.requests@) =~= requests_before + wildcard_upto(
            *context,
            i as int,
            listed,
        ));
        assert(report_views(plan.reports@) =~= reports_before + wildcard_reports_upto(
            *context,
            i as int,
        ));
    }
}

/// Expands the wildcard: what each builtin module of the fixed order
/// denotes, in that order, with the reports about the names of that order.
pub fn expand_all(context: &Context, module_list: &Vec<String>) -> (plan: Plan)
    ensures
        request_views(plan.requests@) == wildcard(*context, views_of(module_list@)),
        report_views(plan.reports@) == wildcard_reports(*context),
{
    let mut plan = Plan { requests: Vec::new(), reports: Vec::new() };
    assert(request_views(plan.requests@) =~= Seq::empty());
    assert(report_views(plan.reports@) =~= Seq::empty());
    plan_wildcard(&mut plan, context, module_list);
    assert(request_views(plan.requests@) =~= wildcard(*context, views_of(module_list@)));
    assert(report_views(plan.reports@) =~= wildcard_reports(*context));
    plan
}

/// What a variable of the template denotes: the wildcard stands for every
/// builtin module of the fixed order; a variable that the configuration
/// switches off has no value at all; any other stands for what it names.
pub open spec fn variable_requests(
    context: Context,
    name: Seq<char>,
    listed: Seq<Seq<char>>,
) -> Option<Seq<RequestView>> {
    if name == "all"@ {
        Some(wildcard(context, listed))
    } else if context.module_disabled(name) {
        None
    } else {
        Some(resolved(context, name, listed))
    }
}

/// The reports about a variable of the template that has a value.
pub open spec fn variable_reports(context: Context, name: Seq<char>) -> Seq<ReportView> {
    if name == "all"@ {
        wildcard_reports(context)
    } else {
        reported(context, name)
    }
}

/// Decides what the variable `module` of the template denotes, and what
/// there is to report about it.
pub fn resolve_variable(module: &str, context: &Context, module_list: &Vec<String>) -> (plan:
    Option<Plan>)
    ensures
        match variable_requests(*context, module@, views_of(module_list@)) {
            Some(views) => plan is Some && request_views(plan->0.requests@) == views
                && report_views(plan->0.reports@) == variable_reports(*context, module@),
            None => plan is None,
        },
{
    if same_text(module, "all") {
        Some(expand_all(context, module_list))
    } else if context.is_module_disabled_in_config(module) {
        None
    } else {
        let mut plan = Plan { requests: Vec::new(), reports: Vec::new() };
        assert(request_views(plan.requests@) =~= Seq::empty());
        assert(report_views(plan.reports@) =~= Seq::empty());
        plan_module(&mut plan, module, context, module_list);
        assert(request_views(plan.requests@) =~= resolved(
            *context,
            module@,
            views_of(module_list@),
        ));
        assert(report_views(plan.reports@) =~= reported(*context, module@));
        Some(plan)
    }
}

/// What one variable adds to the plan for a template: for the wildcard every
/// builtin module of the fixed order, for any other variable what it denotes.
pub open spec fn planned_for(context: Context, name: Seq<char>, variables: Seq<Seq<char>>) -> Seq<
    RequestView,
> {
    if name == "all"@ {
        wildcard(context, variables)
    } else {
        resolved(context, name, variables)
    }
}

/// The modules to compute for the first `upto` of the given variables.
pub open spec fn planned(context: Context, variables: Seq<Seq<char>>, upto: int) -> Seq<
    RequestView,
>
    decreases upto,
{
    if upto <= 0 {
        Seq::empty()
    } else {
        planned(context, variables, upto - 1) + planned_for(
            context,
            variables[upto - 1],
            variables,
        )
    }
}

/// The reports about the first `upto` of the given variables.
pub open spec fn planned_reports(context: Context, variables: Seq<Seq<char>>, upto: int) -> Seq<
    ReportView,
>
    decreases upto,
{
    if upto <= 0 {
        Seq::empty()
    } else {
        planned_reports(context, variables, upto - 1) + variable_reports(
            context,
            variables[upto - 1],
        )
    }
}

/// Lists the modules to compute for a template that uses the given
/// variables, variable by variable, and what there is to report about the
/// variables.
pub fn compute_modules(context: &Context, variables: &Vec<String>) -> (plan: Plan)
    ensures
        request_views(plan.requests@) == planned(
            *context,
            views_of(variables@),
            variables@.len() as int,
        ),
        report_views(plan.reports@) == planned_reports(
            *context,
            views_of(variables@),
            variables@.len() as int,
        ),
{
    let ghost listed = views_of(variables@);
    let mut plan = Plan { requests: Vec::new(), reports: Vec::new() };
    let mut i: usize = 0;
    assert(request_views(plan.requests@) =~= Seq::empty());
    assert(report_views(plan.reports@) =~= Seq::empty());
    while i < variables.len()
        invariant
            i <= variables.len(),
            listed == views_of(variables@),
            request_views(plan.requests@) == planned(*context, listed, i as int),
            report_views(plan.reports@) == planned_reports(*context, listed, i as int),
        decreases variables.len() - i,
    {
        let module = variables[i].as_str();
        assert(listed[i as int] == module@);
        if same_text(module, "all") {
            plan_wildcard(&mut plan, context, variables);
        } else {
            plan_module(&mut plan, module, context, variables);
        }
        i += 1;
    }
    plan
}

/// Whether the configuration leaves the requested module switched on.
pub open spec fn is_enabled(context: Context, request: RequestView) -> bool {
    match request {
        RequestView::Builtin(name) => !context.module_disabled(name),
        RequestView::Custom(id) => context.custom_module_disabled(id) == Some(false),
    }
}

/// The variable that names a custom module is neither of the words `all`
/// and `custom`, and begins with `custom.`.
pub proof fn lemma_explicit_name_is_no_word(id: Seq<char>)
    ensures
        explicit_name(id) != "all"@,
        explicit_name(id) != "custom"@,
        has_prefix(explicit_name(id), "custom."@),
        explicit_name(id).skip("custom."@.len() as int) == id,
{
    reveal_strlit("custom.");
    reveal_strlit("custom");
    reveal_strlit("all");
    assert(explicit_name(id).len() >= 7);
    assert(explicit_name(id).take("custom."@.len() as int) =~= "custom."@);
    assert(explicit_name(id).skip("custom."@.len() as int) =~= id);
}

/// A custom module that the template names itself is requested by that
/// variable alone: no other variable, the word `custom` included, denotes
/// it.
pub proof fn lemma_explicit_custom_is_not_repeated(
    context: Context,
    listed: Seq<Seq<char>>,
    id: Seq<char>,
    name: Seq<char>,
)
    requires
        listed.contains(explicit_name(id)),
        name != explicit_name(id),
    ensures
        !resolved(context, name, listed).contains(RequestView::Custom(id)),
{
    let requests = resolved(context, name, listed);
    if requests.contains(RequestView::Custom(id)) {
        if context.is_builtin(name) {
            assert(false);
        } else if name == "custom"@ {
            match context.config.custom {
                Some(definitions) => {
                    lemma_implicit_customs_skip_listed(
                        definitions@,
                        definitions@.len() as int,
                        listed,
                        id,
                    );
                },
                None => {},
            }
            assert(false);
        } else if has_prefix(name, "custom."@) {
            let prefix = "custom."@;
            assert(name =~= prefix + name.skip(prefix.len() as int));
            assert(false);
        }
    }
}

/// The word `custom` never stands for a module that the template names
/// itself.
pub proof fn lemma_implicit_customs_skip_listed(
    definitions: Seq<CustomModule>,
    upto: int,
    listed: Seq<Seq<char>>,
    id: Seq<char>,
)
    requires
        0 <= upto <= definitions.len(),
        listed.contains(explicit_name(id)),
    ensures
        !implicit_customs(definitions, upto, listed).contains(RequestView::Custom(id)),
    decreases upto,
{
    if upto > 0 {
        lemma_implicit_customs_skip_listed(definitions, upto - 1, listed, id);
    }
}

/// The wildcard never stands for a custom module that the template names
/// itself.
pub proof fn lemma_wildcard_skips_listed(
    context: Context,
    upto: int,
    listed: Seq<Seq<char>>,
    id: Seq<char>,
)
    requires
        context.modules.well_formed(),
        0 <= upto <= context.modules.prompt_order@.len(),
        listed.contains(explicit_name(id)),
    ensures
        !wildcard_upto(context, upto, listed).contains(RequestView::Custom(id)),
    decreases upto,
{
    if upto > 0 {
        let request = RequestView::Custom(id);
        let name = context.modules.prompt_order@[upto - 1]@;
        let before = wildcard_upto(context, upto - 1, listed);
        let here = resolved(context, name, listed);
        lemma_wildcard_skips_listed(context, upto - 1, listed, id);
        lemma_explicit_name_is_no_word(id);
        if name != "custom"@ {
            assert(views_of(context.modules.all_modules@).contains(name));
            let k = choose|k: int|
                0 <= k < context.modules.all_modules@.len() && views_of(
                    context.modules.all_modules@,
                )[k] == name;
            assert(context.modules.all_modules@[k]@ == name);
            assert(!has_prefix(name, "custom."@));
        }
        lemma_explicit_custom_is_not_repeated(context, listed, id, name);
        if (before + here).contains(request) {
            let k = choose|k: int| 0 <= k < (before + here).len() && (before + here)[k] == request;
            if k < before.len() {
                assert(before[k] == request);
            } else {
                assert(here[k - before.len()] == request);
            }
        }
    }
}

/// Whether the variables of a template form a set: no name stands twice
/// among them.
pub open spec fn are_distinct(variables: Seq<Seq<char>>) -> bool {
    forall|i: int, j: int|
        0 <= i < j < variables.len() ==> #[trigger] variables[i] != #[trigger] variables[j]
}

/// How often a request stands in a list of requests.
pub open spec fn occurrences(requests: Seq<RequestView>, request: RequestView) -> nat
    decreases requests.len(),
{
    if requests.len() == 0 {
        0
    } else {
        occurrences(requests.drop_last(), request) + if requests.last() == request {
            1nat
        } else {
            0nat
        }
    }
}

/// A request stands in two joined lists as often as in both together.
pub proof fn lemma_occurrences_of_joined(
    a: Seq<RequestView>,
    b: Seq<RequestView>,
    request: RequestView,
)
    ensures
        occurrences(a + b, request) == occurrences(a, request) + occurrences(b, request),
    decreases b.len(),
{
    if b.len() == 0 {
        assert(a + b =~= a);
    } else {
        assert((a + b).drop_last() =~= a + b.drop_last());
        lemma_occurrences_of_joined(a, b.drop_last(), request);
    }
}

/// A request that a list does not hold stands in it no time.
pub proof fn lemma_absent_request_occurs_never(requests: Seq<RequestView>, request: RequestView)
    requires
        !requests.contains(request),
    ensures
        occurrences(requests, request) == 0,
    decreases requests.len(),
{
    if requests.len() > 0 {
        assert(requests[requests.len() - 1] != request);
        assert forall|k: int| 0 <= k < requests.drop_last().len() implies requests.drop_last()[k]
            != request by {
            assert(requests[k] != request);
        }
        lemma_absent_request_occurs_never(requests.drop_last(), request);
    }
}

/// How often the plan for the first `upto` variables requests the custom
/// module `id` when the template names that module itself: once if the
/// variable that names it is among them and the module is defined and
/// switched on, and never otherwise.
pub proof fn lemma_explicit_custom_in_plan(
    context: Context,
    variables: Seq<Seq<char>>,
    upto: int,
    id: Seq<char>,
)
    requires
        context.modules.well_formed(),
        are_distinct(variables),
        variables.contains(explicit_name(id)),
        0 <= upto <= variables.len(),
    ensures
        occurrences(planned(context, variables, upto), RequestView::Custom(id)) == if variables.take(
            upto,
        ).contains(explicit_name(id)) && context.custom_module_disabled(id) == Some(false) {
            1nat
        } else {
            0nat
        },
    decreases upto,
{
    let request = RequestView::Custom(id);
    let explicit = explicit_name(id);
    if upto > 0 {
        let name = variables[upto - 1];
        let before = planned(context, variables, upto - 1);
        let here = planned_for(context, name, variables);
        let shorter = variables.take(upto - 1);
        let longer = variables.take(upto);
        lemma_explicit_custom_in_plan(context, variables, upto - 1, id);
        lemma_occurrences_of_joined(before, here, request);
        lemma_explicit_name_is_no_word(id);
        if name == explicit {
            assert(longer[upto - 1] == explicit);
            assert(!shorter.contains(explicit)) by {
                if shorter.contains(explicit) {
                    let k = choose|k: int| 0 <= k < shorter.len() && shorter[k] == explicit;
                    assert(variables[k] == variables[upto - 1]);
                }
            }
            assert(!context.is_builtin(name)) by {
                if context.is_builtin(name) {
                    let k = choose|k: int|
                        0 <= k < context.modules.all_modules@.len() && views_of(
                            context.modules.all_modules@,
                        )[k] == name;
                    assert(context.modules.all_modules@[k]@ == name);
                }
            }
            if context.custom_module_disabled(id) == Some(false) {
                assert(here =~= seq![request]);
                assert(here.drop_last() =~= Seq::<RequestView>::empty());
                assert(occurrences(here.drop_last(), request) == 0);
                assert(here.last() == request);
                assert(occurrences(here, request) == 1);
            } else {
                assert(here =~= Seq::<RequestView>::empty());
            }
        } else {
            if name == "all"@ {
                lemma_wildcard_skips_listed(
                    context,
                    context.modules.prompt_order@.len() as int,
                    variables,
                    id,
                );
            } else {
                lemma_explicit_custom_is_not_repeated(context, variables, id, name);
            }
            lemma_absent_request_occurs_never(here, request);
            assert(longer.contains(explicit) <==> shorter.contains(explicit)) by {
                if longer.contains(explicit) {
                    let k = choose|k: int| 0 <= k < longer.len() && longer[k] == explicit;
                    assert(shorter[k] == explicit);
                }
                if shorter.contains(explicit) {
                    let k = choose|k: int| 0 <= k < shorter.len() && shorter[k] == explicit;
                    assert(longer[k] == explicit);
                }
            }
        }
    } else {
        assert(variables.take(0).len() == 0);
    }
}

/// A custom module that the template names itself, and that is defined and
/// switched on, stands exactly once in the plan for a template whose
/// variables are distinct, also where the template uses the word `custom` or
/// the wildcard beside it.
pub proof fn lemma_explicit_custom_stands_once(
    context: Context,
    variables: Seq<Seq<char>>,
    id: Seq<char>,
)
    requires
        context.modules.well_formed(),
        are_distinct(variables),
        variables.contains(explicit_name(id)),
        context.custom_module_disabled(id) == Some(false),
    ensures
        occurrences(
            planned(context, variables, variables.len() as int),
            RequestView::Custom(id),
        ) == 1,
{
    lemma_explicit_custom_in_plan(context, variables, variables.len() as int, id);
    assert(variables.take(variables.len() as int) =~= variables);
}

/// Every custom module that the word `custom` stands for is defined and
/// switched on.
pub proof fn lemma_implicit_customs_are_enabled(
    context: Context,
    upto: int,
    listed: Seq<Seq<char>>,
    request: RequestView,
)
    requires
        context.config.well_formed(),
        context.config.custom is Some,
        0 <= upto <= context.config.custom->0@.len(),
        implicit_customs(context.config.custom->0@, upto, listed).contains(request),
    ensures
        is_enabled(context, request),
    decreases upto,
{
    let definitions = context.config.custom->0@;
    if upto > 0 {
        let before = implicit_customs(definitions, upto - 1, listed);
        if before.contains(request) {
            lemma_implicit_customs_are_enabled(context, upto - 1, listed, request);
        } else {
            let definition = definitions[upto - 1];
            assert(added_implicitly(definition, listed));
            assert(request == RequestView::Custom(definition.id@));
            lemma_no_definition_decides(definitions, upto - 1, definition.id@);
            lemma_first_definition_decides(
                definitions,
                upto - 1,
                definitions.len() as int,
                definition.id@,
            );
        }
    }
}

/// A module that the configuration switches off is never requested: every
/// module that a variable denotes is switched on, whatever the variable.
pub proof fn lemma_resolved_modules_are_enabled(
    context: Context,
    name: Seq<char>,
    listed: Seq<Seq<char>>,
    request: RequestView,
)
    requires
        context.config.well_formed(),
        resolved(context, name, listed).contains(request),
    ensures
        is_enabled(context, request),
{
    if !context.is_builtin(name) && name == "custom"@ {
        lemma_implicit_customs_are_enabled(
            context,
            context.config.custom->0@.len() as int,
            listed,
            request,
        );
    }
}

/// A builtin module that is switched off yields no request when the
/// template names it, and the variable that names it has no value.
pub proof fn lemma_disabled_builtin_yields_nothing(
    context: Context,
    name: Seq<char>,
    listed: Seq<Seq<char>>,
)
    requires
        context.is_builtin(name),
        context.module_disabled(name),
    ensures
        resolved(context, name, listed).len() == 0,
        name != "all"@ ==> variable_requests(context, name, listed) is None,
{
}

/// A custom module that is switched off, or not defined, yields no request
/// when the template names it.
pub proof fn lemma_disabled_custom_yields_nothing(
    context: Context,
    id: Seq<char>,
    listed: Seq<Seq<char>>,
)
    requires
        context.modules.well_formed(),
        context.custom_module_disabled(id) != Some(false),
    ensures
        resolved(context, explicit_name(id), listed).len() == 0,
{
    let name = explicit_name(id);
    lemma_explicit_name_is_no_word(id);
    if context.is_builtin(name) {
        let k = choose|k: int|
            0 <= k < context.modules.all_modules@.len() && views_of(
                context.modules.all_modules@,
            )[k] == name;
        assert(context.modules.all_modules@[k]@ == name);
    }
}

/// The wildcard requests no module that is switched off.
pub proof fn lemma_wildcard_modules_are_enabled(
    context: Context,
    upto: int,
    listed: Seq<Seq<char>>,
    request: RequestView,
)
    requires
        context.config.well_formed(),
        0 <= upto <= context.modules.prompt_order@.len(),
        wildcard_upto(context, upto, listed).contains(request),
    ensures
        is_enabled(context, request),
    decreases upto,
{
    if upto > 0 {
        let before = wildcard_upto(context, upto - 1, listed);
        let here = resolved(context, context.modules.prompt_order@[upto - 1]@, listed);
        assert((before + here).contains(request));
        let k = choose|k: int| 0 <= k < (before + here).len() && (before + here)[k] == request;
        if k < before.len() {
            assert(before[k] == request);
            lemma_wildcard_modules_are_enabled(context, upto - 1, listed, request);
        } else {
            assert(here[k - before.len()] == request);
            lemma_resolved_modules_are_enabled(
                context,
                context.modules.prompt_order@[upto - 1]@,
                listed,
                request,
            );
        }
    }
}

/// The plan for a template requests no module that is switched off.
pub proof fn lemma_planned_modules_are_enabled(
    context: Context,
    variables: Seq<Seq<char>>,
    upto: int,
    request: RequestView,
)
    requires
        context.config.well_formed(),
        0 <= upto <= variables.len(),
        planned(context, variables, upto).contains(request),
    ensures
        is_enabled(context, request),
    decreases upto,
{
    if upto > 0 {
        let name = variables[upto - 1];
        let before = planned(context, variables, upto - 1);
        let here = planned_for(context, name, variables);
        assert((before + here).contains(request));
        let k = choose|k: int| 0 <= k < (before + here).len() && (before + here)[k] == request;
        if k < before.len() {
            assert(before[k] == request);
            lemma_planned_modules_are_enabled(context, variables, upto - 1, request);
        } else {
            assert(here[k - before.len()] == request);
            if name == "all"@ {
                lemma_wildcard_modules_are_enabled(
                    context,
                    context.modules.prompt_order@.len() as int,
                    variables,
                    request,
                );
            } else {
                lemma_resolved_modules_are_enabled(context, name, variables, request);
            }
        }
    }
}

} // verus!
