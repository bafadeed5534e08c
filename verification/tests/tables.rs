use tfls_lsp::attr_ref_map::{explicit_lookup, output_attribute, referenced_resource_type};
use tfls_lsp::block_rename::{all_block_renames, resolved_to, StateMigration};
use tfls_lsp::completion_files::tftest_reference_prefix;
use tfls_lsp::completion_versions::parse_source;
use tfls_lsp::completion_values::literal_should_be_unquoted;
use tfls_lsp::document::{did_open_publish_action, DidOpenPublish};
use tfls_lsp::formatting::match_trailing_newline;
use tfls_lsp::quick_fixes::missing_attr_name;
use tfls_lsp::rename::rfind_ident;
use tfls_lsp::text::str_trim;

#[test]
fn security_group_id_maps_correctly() {
    assert_eq!(
        referenced_resource_type("aws_security_group_rule", "security_group_id"),
        Some("aws_security_group")
    );
}

#[test]
fn plural_attr_normalised() {
    assert_eq!(
        referenced_resource_type("aws_instance", "vpc_security_group_ids"),
        Some("aws_security_group")
    );
}

#[test]
fn subnet_id_maps() {
    assert_eq!(referenced_resource_type("aws_instance", "subnet_id"), Some("aws_subnet"));
}

#[test]
fn role_arn_maps() {
    assert_eq!(
        referenced_resource_type("aws_lambda_function", "role_arn"),
        Some("aws_iam_role")
    );
}

#[test]
fn unknown_attr_returns_none() {
    assert_eq!(referenced_resource_type("aws_instance", "tags"), None);
}

#[test]
fn output_attr_for_id() {
    assert_eq!(output_attribute("security_group_id"), ".id");
}

#[test]
fn output_attr_for_arn() {
    assert_eq!(output_attribute("role_arn"), ".arn");
}

#[test]
fn output_attr_for_name() {
    assert_eq!(output_attribute("function_name"), ".name");
}

#[test]
fn s3_bucket_in_s3_context() {
    assert_eq!(
        referenced_resource_type("aws_s3_bucket_policy", "bucket"),
        Some("aws_s3_bucket")
    );
}

#[test]
fn iam_role_in_iam_context() {
    assert_eq!(
        referenced_resource_type("aws_iam_role_policy_attachment", "role"),
        Some("aws_iam_role")
    );
}

#[test]
fn most_attributes_refer_alike_everywhere() {
    for attr in ["subnet_ids", "kms_key_arn", "zone_id"] {
        let found = referenced_resource_type("aws_instance", attr);
        assert_eq!(found, referenced_resource_type("other_thing", attr));
        assert!(found.is_some_and(|t| t.starts_with("aws_")));
    }
}

#[test]
fn provider_sources_have_two_or_three_parts() {
    let pair = |a: &str, b: &str| Some((a.to_string(), b.to_string()));
    assert_eq!(parse_source("hashicorp/aws"), pair("hashicorp", "aws"));
    assert_eq!(parse_source("\"host.example/ns/aws\""), pair("ns", "aws"));
    assert_eq!(parse_source(" hashicorp/aws "), pair("hashicorp", "aws"));
    assert_eq!(parse_source("a/b/c/d"), None);
    assert_eq!(parse_source("aws"), None);
    assert_eq!(parse_source("/aws"), None);
}

#[test]
fn prefixes_guard_the_table() {
    assert_eq!(referenced_resource_type("aws_instance", "bucket"), None);
    assert_eq!(output_attribute("arn"), ".arn");
    assert_eq!(output_attribute("bucket"), ".id");
}

#[test]
fn extracts_attribute_name_from_message() {
    assert_eq!(missing_attr_name("missing required attribute `ami`"), Some("ami"));
    assert_eq!(missing_attr_name("no ticks here"), None);
}

#[test]
fn k8s_specs_resolve_to_v1_suffix() {
    for spec in all_block_renames() {
        if !spec.from.starts_with("kubernetes_") {
            continue;
        }
        let to = resolved_to(&spec);
        assert_eq!(to, format!("{}_v1", spec.from), "spec {spec:?}");
    }
}

#[test]
fn aws_specs_have_explicit_to() {
    for spec in all_block_renames() {
        if !spec.from.starts_with("aws_") {
            continue;
        }
        assert!(!spec.to.is_empty(), "spec {spec:?} missing `to`");
        let to = resolved_to(&spec);
        assert_eq!(to, spec.to);
    }
}

#[test]
fn every_spec_is_a_resource() {
    for spec in all_block_renames() {
        assert_eq!(spec.block_kind, "resource", "spec {spec:?}");
        assert!(spec.is_resource(), "spec {spec:?}");
    }
}

#[test]
fn aws_alb_family_is_aliased() {
    for spec in all_block_renames() {
        if spec.from.starts_with("aws_alb") {
            assert_eq!(
                spec.state_migration,
                StateMigration::Aliased,
                "aws_alb family must be Aliased; got {spec:?}",
            );
        }
    }
}

#[test]
fn aws_s3_bucket_object_requires_terraform_18() {
    let specs = all_block_renames();
    let spec = specs
        .iter()
        .find(|s| s.from == "aws_s3_bucket_object")
        .expect("spec present");
    assert_eq!(spec.state_migration, StateMigration::RequiresTerraform18);
}

#[test]
fn kubernetes_renames_are_manual() {
    for spec in all_block_renames() {
        if spec.from.starts_with("kubernetes_") {
            assert_eq!(
                spec.state_migration,
                StateMigration::Manual,
                "kubernetes rename must be Manual; got {spec:?}",
            );
        }
    }
}

#[test]
fn literal_should_be_unquoted_emits_bare_for_numbers() {
    assert!(literal_should_be_unquoted("0"));
    assert!(literal_should_be_unquoted("9"));
    assert!(literal_should_be_unquoted("3.14"));
}

#[test]
fn literal_should_be_unquoted_emits_quoted_for_strings_and_bools() {
    assert!(!literal_should_be_unquoted("true"));
    assert!(!literal_should_be_unquoted("false"));
    assert!(!literal_should_be_unquoted("Graph"));
    assert!(!literal_should_be_unquoted("PowerShell"));
}

#[test]
fn unquoted_literals_are_those_that_parse_as_numbers() {
    let samples = [
        "", "+", "-", ".", "1.", ".5", "-.5", "+7", "-7", "1e5", "1E+5", "1e-5", "1e", "1e+", "e5",
        ".e5", "1.e5", "inf", "-inf", "Infinity", "NaN", "nan", "infinit", "in", "1 ", " 1", "1_0",
        "0x10", "9223372036854775808", "--1", "1.2.3", "1.5e3x", "\u{0661}", "1f",
    ];
    for s in samples {
        let expected = s.parse::<i64>().is_ok() || s.parse::<f64>().is_ok();
        assert_eq!(literal_should_be_unquoted(s), expected, "{s:?}");
    }
}

#[test]
fn reference_prefix_detects_namespaces() {
    assert_eq!(tftest_reference_prefix("  region = var."), Some(("var", "")));
    assert_eq!(
        tftest_reference_prefix("  condition = output.i"),
        Some(("output", "i"))
    );
    assert_eq!(tftest_reference_prefix("  x = run."), Some(("run", "")));
}

#[test]
fn reference_prefix_handles_multibyte_delimiter_without_panicking() {
    assert_eq!(tftest_reference_prefix("  x = —var."), Some(("var", "")));
    assert_eq!(tftest_reference_prefix("»output.i"), Some(("output", "i")));
    assert_eq!(tftest_reference_prefix("\u{00a0}run."), Some(("run", "")));
    assert_eq!(tftest_reference_prefix("café"), None);
}

#[test]
fn reference_prefix_ignores_non_reference_and_deep_paths() {
    assert_eq!(tftest_reference_prefix("  command = pl"), None);
    assert_eq!(tftest_reference_prefix("  x = run.x."), None);
    assert_eq!(tftest_reference_prefix("  x = local."), None);
}

#[test]
fn always_publish_real_while_pull_unadvertised() {
    assert_eq!(did_open_publish_action(true), DidOpenPublish::PublishReal);
    assert_eq!(did_open_publish_action(false), DidOpenPublish::PublishReal);
}

#[test]
fn action_enum_has_no_push_real_under_pull_variant() {
    let variants = [
        DidOpenPublish::ClearPushNamespaceThenPull,
        DidOpenPublish::PublishReal,
    ];
    for v in variants {
        match v {
            DidOpenPublish::ClearPushNamespaceThenPull | DidOpenPublish::PublishReal => {}
        }
    }
}

#[test]
fn match_trailing_newline_respects_slice() {
    assert_eq!(match_trailing_newline("a\n".into(), "a"), "a");
    assert_eq!(match_trailing_newline("a\n".into(), "a\n"), "a\n");
}

#[test]
fn rfind_ident_whole_word_only() {
    assert_eq!(rfind_ident("abc var.region def", "region"), Some(8));
    assert_eq!(rfind_ident("regionally", "region"), None);
    assert_eq!(rfind_ident("my_region_", "region"), None);
}

#[test]
fn rfind_ident_picks_rightmost() {
    assert_eq!(rfind_ident("region=var.region", "region"), Some(11));
}

#[test]
fn the_table_looks_at_the_resource_for_five_attributes_only() {
    assert_eq!(explicit_lookup("aws_iam_role_policy", "role"), Some("aws_iam_role"));
    assert_eq!(explicit_lookup("aws_lambda_function", "role"), None);
    for resource in ["aws_instance", "google_compute_instance", ""] {
        assert_eq!(explicit_lookup(resource, "subnet_ids"), Some("aws_subnet"));
        assert_eq!(explicit_lookup(resource, "tags"), None);
    }
}

#[test]
fn every_whitespace_character_is_trimmed() {
    for c in '\0'..=char::MAX {
        assert_eq!(str_trim(&c.to_string()).is_empty(), c.is_whitespace(), "{c:?}");
    }
}
