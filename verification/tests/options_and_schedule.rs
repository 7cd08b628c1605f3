use buck2_bits::attr_inspect_options::AttrInspectOptions;
use buck2_bits::cell_info::BuildFileCell;
use buck2_bits::cell_info::CellAliasResolver;
use buck2_bits::cell_info::CellResolver;
use buck2_bits::cell_info::InterpreterCellInfo;
use buck2_bits::global_cfg_options::GlobalCfgOptions;
use buck2_bits::global_cfg_options::TargetLabel;
use buck2_bits::schedule_type::SandcastleScheduleType;

#[test]
fn include_default_only_for_all() {
    assert!(!AttrInspectOptions::DefinedOnly.include_default());
    assert!(AttrInspectOptions::All.include_default());
}

#[test]
fn continuous_schedule() {
    let s = SandcastleScheduleType::testing_new("continuous");
    assert!(s.is_some());
    assert!(s.is_continuous());
    assert!(!s.is_diff());
}

#[test]
fn diff_schedule() {
    let s = SandcastleScheduleType::testing_new("diff");
    assert!(s.is_some());
    assert!(!s.is_continuous());
    assert!(s.is_diff());
}

#[test]
fn other_schedule_is_neither() {
    let s = SandcastleScheduleType::testing_new("nightly");
    assert!(s.is_some());
    assert!(!s.is_continuous());
    assert!(!s.is_diff());
    let s = SandcastleScheduleType::testing_new("continuous2");
    assert!(!s.is_continuous());
}

#[test]
fn empty_schedule() {
    let s = SandcastleScheduleType::testing_empty();
    assert!(!s.is_some());
    assert!(!s.is_continuous());
    assert!(!s.is_diff());
}

#[test]
fn schedule_type_variable_wins_over_sandcastle_variable() {
    let s = SandcastleScheduleType::from_env_values(Some("diff"), Some("continuous"));
    assert!(s.is_diff());
    let s = SandcastleScheduleType::from_env_values(None, Some("continuous"));
    assert!(s.is_continuous());
    let s = SandcastleScheduleType::from_env_values(None, None);
    assert!(!s.is_some());
}

#[test]
fn cell_info_keeps_what_it_was_given() {
    let resolver = CellResolver {
        cells: vec![("root".to_owned(), "".to_owned()), ("prelude".to_owned(), "prelude".to_owned())],
    };
    let aliases = CellAliasResolver {
        current: "root".to_owned(),
        aliases: vec![("p".to_owned(), "prelude".to_owned())],
    };
    let info = InterpreterCellInfo::new(BuildFileCell { name: "root" }, resolver.clone(), aliases.clone())
        .unwrap();
    assert_eq!(info.name(), BuildFileCell { name: "root" });
    assert_eq!(info.cell_resolver(), &resolver);
    assert_eq!(info.cell_alias_resolver(), &aliases);
}

#[test]
fn global_cfg_options_default_is_empty() {
    let o = GlobalCfgOptions::default();
    assert!(o.target_platform.is_none());
    assert!(o.cli_modifiers.is_empty());
    let p = GlobalCfgOptions {
        target_platform: Some(TargetLabel {
            cell: "root".to_owned(),
            package: "platforms".to_owned(),
            name: "linux".to_owned(),
        }),
        cli_modifiers: std::sync::Arc::new(vec!["opt".to_owned()]),
    };
    assert_ne!(o, p);
    assert!(o < p);
}
