use prompt_print::config::{
    disabled_from_setting, Config, Context, CustomModule, ModuleTable, Shell,
};
use prompt_print::resolve::{
    compute_modules, expand_all, handle_module, resolve_variable,
    should_add_implicit_custom_module, Diagnostic, ModuleRequest, Report,
};

fn strings(items: &[&str]) -> Vec<String> {
    items.iter().map(|s| s.to_string()).collect()
}

fn custom(id: &str, disabled: bool) -> CustomModule {
    CustomModule { id: id.to_string(), disabled }
}

fn context(disabled: &[&str], custom: Option<Vec<CustomModule>>) -> Context {
    Context {
        shell: Shell::Bash,
        term_is_dumb: false,
        modules: ModuleTable {
            all_modules: strings(&["directory", "git_branch", "line_break", "character"]),
            prompt_order: strings(&["directory", "git_branch", "custom", "line_break", "character"]),
        },
        config: Config { add_newline: true, disabled: strings(disabled), custom },
    }
}

fn told(reports: &[Report]) -> Vec<(String, Diagnostic)> {
    reports.iter().map(|r| (r.name.clone(), r.diagnostic)).collect()
}

fn shown(requests: &[ModuleRequest]) -> Vec<String> {
    requests
        .iter()
        .map(|r| match r {
            ModuleRequest::Builtin(name) => format!("builtin:{}", name),
            ModuleRequest::Custom(id) => format!("custom:{}", id),
        })
        .collect()
}

#[test]
fn a_builtin_module_denotes_itself() {
    let ctx = context(&[], None);
    let resolution = handle_module("directory", &ctx, &strings(&["directory"]));
    assert_eq!(shown(&resolution.requests), vec!["builtin:directory"]);
    assert_eq!(resolution.diagnostic, None);
}

#[test]
fn a_disabled_builtin_module_denotes_nothing() {
    let ctx = context(&["git_branch"], None);
    let resolution = handle_module("git_branch", &ctx, &strings(&["git_branch"]));
    assert!(resolution.requests.is_empty());
    assert_eq!(resolution.diagnostic, None);
    assert!(ctx.is_module_disabled_in_config("git_branch"));
    assert!(!ctx.is_module_disabled_in_config("directory"));
}

#[test]
fn custom_stands_for_every_enabled_custom_module() {
    let ctx = context(&[], Some(vec![custom("a", false), custom("b", true), custom("c", false)]));
    let resolution = handle_module("custom", &ctx, &strings(&["custom"]));
    assert_eq!(shown(&resolution.requests), vec!["custom:a", "custom:c"]);
    assert_eq!(resolution.diagnostic, None);
}

#[test]
fn custom_skips_what_the_template_names_itself() {
    let ctx = context(&[], Some(vec![custom("a", false), custom("b", false), custom("c", false)]));
    let listed = strings(&["custom", "custom.b", "directory"]);
    let resolution = handle_module("custom", &ctx, &listed);
    assert_eq!(shown(&resolution.requests), vec!["custom:a", "custom:c"]);
    let explicit = handle_module("custom.b", &ctx, &listed);
    assert_eq!(shown(&explicit.requests), vec!["custom:b"]);
    let plan = compute_modules(&ctx, &listed).requests;
    let times = shown(&plan).iter().filter(|r| r.as_str() == "custom:b").count();
    assert_eq!(times, 1);
    assert_eq!(shown(&plan), vec!["custom:a", "custom:c", "custom:b", "builtin:directory"]);
}

#[test]
fn custom_without_any_definition_denotes_nothing() {
    let ctx = context(&[], None);
    let resolution = handle_module("custom", &ctx, &strings(&["custom"]));
    assert!(resolution.requests.is_empty());
    assert_eq!(resolution.diagnostic, None);
}

#[test]
fn an_explicit_custom_module_is_looked_up() {
    let ctx = context(&[], Some(vec![custom("a", false), custom("b", true)]));
    let listed = strings(&["custom.a", "custom.b", "custom.zzz"]);
    let enabled = handle_module("custom.a", &ctx, &listed);
    assert_eq!(shown(&enabled.requests), vec!["custom:a"]);
    assert_eq!(enabled.diagnostic, None);
    let disabled = handle_module("custom.b", &ctx, &listed);
    assert!(disabled.requests.is_empty());
    assert_eq!(disabled.diagnostic, None);
    let missing = handle_module("custom.zzz", &ctx, &listed);
    assert!(missing.requests.is_empty());
    assert_eq!(missing.diagnostic, Some(Diagnostic::CustomModuleNotFound));
    assert_eq!(ctx.is_custom_module_disabled_in_config("a"), Some(false));
    assert_eq!(ctx.is_custom_module_disabled_in_config("b"), Some(true));
    assert_eq!(ctx.is_custom_module_disabled_in_config("zzz"), None);
}

#[test]
fn an_explicit_custom_module_without_configuration_is_reported() {
    let ctx = context(&[], None);
    let resolution = handle_module("custom.a", &ctx, &strings(&["custom.a"]));
    assert!(resolution.requests.is_empty());
    assert_eq!(resolution.diagnostic, Some(Diagnostic::NoCustomModules));
}

#[test]
fn the_empty_custom_id_is_looked_up_like_any_other() {
    let ctx = context(&[], Some(vec![custom("", false)]));
    let resolution = handle_module("custom.", &ctx, &strings(&["custom."]));
    assert_eq!(shown(&resolution.requests), vec!["custom:"]);
}

#[test]
fn an_unknown_variable_denotes_nothing() {
    let ctx = context(&[], Some(vec![custom("a", false)]));
    for name in ["", "nonsense", "Directory", "custom_a", "customs", "custo", "all"] {
        let resolution = handle_module(name, &ctx, &strings(&[name]));
        assert!(resolution.requests.is_empty());
        assert_eq!(resolution.diagnostic, Some(Diagnostic::UnknownModule));
    }
}

#[test]
fn implicit_inclusion_needs_an_enabled_and_unlisted_module() {
    let listed = strings(&["custom", "custom.listed"]);
    assert!(should_add_implicit_custom_module(&custom("free", false), &listed));
    assert!(!should_add_implicit_custom_module(&custom("free", true), &listed));
    assert!(!should_add_implicit_custom_module(&custom("listed", false), &listed));
    assert!(!should_add_implicit_custom_module(&custom("listed", true), &listed));
    assert!(should_add_implicit_custom_module(&custom("custom", false), &listed));
}

#[test]
fn the_wildcard_follows_the_fixed_order() {
    let ctx = context(&["git_branch"], Some(vec![custom("x", false), custom("y", false)]));
    let listed = strings(&["all", "custom.y"]);
    assert_eq!(
        shown(&expand_all(&ctx, &listed).requests),
        vec!["builtin:directory", "custom:x", "builtin:line_break", "builtin:character"]
    );
    assert!(expand_all(&ctx, &listed).reports.is_empty());
    let resolved = resolve_variable("all", &ctx, &listed);
    assert_eq!(
        resolved.map(|r| shown(&r.requests)),
        Some(strings(&["builtin:directory", "custom:x", "builtin:line_break", "builtin:character"]))
    );
}

#[test]
fn a_disabled_variable_has_no_value() {
    let ctx = context(&["git_branch"], None);
    let listed = strings(&["git_branch", "directory", "typo"]);
    assert!(resolve_variable("git_branch", &ctx, &listed).is_none());
    assert_eq!(
        resolve_variable("directory", &ctx, &listed).map(|r| shown(&r.requests)),
        Some(strings(&["builtin:directory"]))
    );
    let typo = resolve_variable("typo", &ctx, &listed).unwrap();
    assert!(typo.requests.is_empty());
    assert_eq!(told(&typo.reports), vec![("typo".to_string(), Diagnostic::UnknownModule)]);
}

#[test]
fn the_plan_lists_each_variable_in_turn() {
    let ctx = context(&["line_break"], Some(vec![custom("x", true), custom("y", false)]));
    let listed = strings(&["character", "all", "custom.x", "custom.y", "oops"]);
    let plan = compute_modules(&ctx, &listed);
    assert_eq!(
        shown(&plan.requests),
        vec![
            "builtin:character",
            "builtin:directory",
            "builtin:git_branch",
            "builtin:character",
            "custom:y"
        ]
    );
    assert_eq!(told(&plan.reports), vec![("oops".to_string(), Diagnostic::UnknownModule)]);
    let empty = compute_modules(&ctx, &vec![]);
    assert!(empty.requests.is_empty());
    assert!(empty.reports.is_empty());
}

#[test]
fn the_plan_reports_what_denotes_nothing() {
    let mut ctx = context(&[], Some(vec![custom("a", false)]));
    ctx.modules.prompt_order = strings(&["directory", "custom.gone", "nonsense", "custom"]);
    let listed = strings(&["all", "custom.a", "custom.b", "typo"]);
    let plan = compute_modules(&ctx, &listed);
    assert_eq!(shown(&plan.requests), vec!["builtin:directory", "custom:a"]);
    assert_eq!(
        told(&plan.reports),
        vec![
            ("custom.gone".to_string(), Diagnostic::CustomModuleNotFound),
            ("nonsense".to_string(), Diagnostic::UnknownModule),
            ("custom.b".to_string(), Diagnostic::CustomModuleNotFound),
            ("typo".to_string(), Diagnostic::UnknownModule),
        ]
    );
    let wildcard = resolve_variable("all", &ctx, &listed).unwrap();
    assert_eq!(
        told(&wildcard.reports),
        vec![
            ("custom.gone".to_string(), Diagnostic::CustomModuleNotFound),
            ("nonsense".to_string(), Diagnostic::UnknownModule),
        ]
    );
    let bare = context(&[], None);
    let plan = compute_modules(&bare, &strings(&["custom.a", "custom"]));
    assert!(plan.requests.is_empty());
    assert_eq!(told(&plan.reports), vec![("custom.a".to_string(), Diagnostic::NoCustomModules)]);
}

#[test]
fn a_switched_off_custom_module_is_never_requested() {
    let ctx = context(&[], Some(vec![custom("x", true), custom("y", false)]));
    let listed = strings(&["all", "custom", "custom.x"]);
    let plan = compute_modules(&ctx, &listed);
    assert_eq!(shown(&plan.requests), vec!["builtin:directory", "builtin:git_branch", "custom:y",
        "builtin:line_break", "builtin:character", "custom:y"]);
    assert!(plan.reports.is_empty());
    assert!(handle_module("custom.x", &ctx, &listed).requests.is_empty());
}

#[test]
fn a_named_custom_module_stands_once_beside_the_wildcard() {
    let ctx = context(&[], Some(vec![custom("x", false), custom("y", false)]));
    let listed = strings(&["all", "custom", "custom.x"]);
    let plan = compute_modules(&ctx, &listed);
    let times = shown(&plan.requests).iter().filter(|r| r.as_str() == "custom:x").count();
    assert_eq!(times, 1);
}

#[test]
fn only_a_true_setting_switches_a_module_off() {
    assert!(disabled_from_setting(Some(true)));
    assert!(!disabled_from_setting(Some(false)));
    assert!(!disabled_from_setting(None));
    let on = CustomModule::from_setting("a".to_string(), None);
    assert_eq!(on.id, "a");
    assert!(!on.disabled);
    assert!(CustomModule::from_setting("b".to_string(), Some(true)).disabled);
    assert!(!CustomModule::from_setting("c".to_string(), Some(false)).disabled);
}
