//! Which resource type an attribute refers to.
//!
//! Provider schemas do not say which attribute holds a reference to which
//! resource, so the common patterns are kept in a table.

use crate::cursor::lemma_found;
use crate::seqs::{find_map, lemma_find_map_step, lemma_take_full};
use crate::text::{
    chars_of, ends_with, opt_str, starts_with, str_ends_with, str_eq, str_starts_with, string_sub,
};
use vstd::prelude::*;

verus! {

/// One entry of the table: the singular attribute name, the prefix that the
/// enclosing resource type must have, and the type that is referred to.
struct RefRule {
    attr: &'static str,
    prefix: Option<&'static str>,
    target: &'static str,
}

/// The table: attribute, prefix of the enclosing type, referred type.
pub open spec fn ref_rules() -> Seq<(Seq<char>, Option<Seq<char>>, Seq<char>)> {
    seq![
        ("security_group_id"@, None, "aws_security_group"@),
        ("source_security_group_id"@, None, "aws_security_group"@),
        ("vpc_security_group_id"@, None, "aws_security_group"@),
        ("subnet_id"@, None, "aws_subnet"@),
        ("vpc_id"@, None, "aws_vpc"@),
        ("route_table_id"@, None, "aws_route_table"@),
        ("internet_gateway_id"@, None, "aws_internet_gateway"@),
        ("gateway_id"@, None, "aws_internet_gateway"@),
        ("nat_gateway_id"@, None, "aws_nat_gateway"@),
        ("network_interface_id"@, None, "aws_network_interface"@),
        ("eip_id"@, None, "aws_eip"@),
        ("allocation_id"@, None, "aws_eip"@),
        ("network_acl_id"@, None, "aws_network_acl"@),
        ("role_arn"@, None, "aws_iam_role"@),
        ("role"@, Some("aws_iam_"@), "aws_iam_role"@),
        ("policy_arn"@, None, "aws_iam_policy"@),
        ("instance_profile_arn"@, None, "aws_iam_instance_profile"@),
        ("iam_instance_profile"@, None, "aws_iam_instance_profile"@),
        ("bucket"@, Some("aws_s3_"@), "aws_s3_bucket"@),
        ("target_group_arn"@, None, "aws_lb_target_group"@),
        ("load_balancer_arn"@, None, "aws_lb"@),
        ("instance_id"@, None, "aws_instance"@),
        ("ami"@, None, "aws_ami"@),
        ("key_name"@, None, "aws_key_pair"@),
        ("launch_template_id"@, None, "aws_launch_template"@),
        ("placement_group"@, None, "aws_placement_group"@),
        ("kms_key_id"@, None, "aws_kms_key"@),
        ("kms_key_arn"@, None, "aws_kms_key"@),
        ("topic_arn"@, None, "aws_sns_topic"@),
        ("queue_arn"@, None, "aws_sqs_queue"@),
        ("log_group_name"@, None, "aws_cloudwatch_log_group"@),
        ("function_name"@, Some("aws_lambda_"@), "aws_lambda_function"@),
        ("cluster"@, Some("aws_ecs_"@), "aws_ecs_cluster"@),
        ("task_definition"@, None, "aws_ecs_task_definition"@),
        ("certificate_arn"@, None, "aws_acm_certificate"@),
        ("zone_id"@, None, "aws_route53_zone"@),
        ("db_subnet_group_name"@, None, "aws_db_subnet_group"@),
        ("parameter_group_name"@, Some("aws_db_"@), "aws_db_parameter_group"@)
    ]
}

spec fn rules_view(v: Seq<RefRule>) -> Seq<(Seq<char>, Option<Seq<char>>, Seq<char>)> {
    Seq::new(v.len(), |i: int| (v[i].attr@, opt_str(v[i].prefix), v[i].target@))
}

fn rule_table() -> (r: Vec<RefRule>)
    ensures
        rules_view(r@) == ref_rules(),
{
    let v = vec![
        RefRule { attr: "security_group_id", prefix: None, target: "aws_security_group" },
        RefRule { attr: "source_security_group_id", prefix: None, target: "aws_security_group" },
        RefRule { attr: "vpc_security_group_id", prefix: None, target: "aws_security_group" },
        RefRule { attr: "subnet_id", prefix: None, target: "aws_subnet" },
        RefRule { attr: "vpc_id", prefix: None, target: "aws_vpc" },
        RefRule { attr: "route_table_id", prefix: None, target: "aws_route_table" },
        RefRule { attr: "internet_gateway_id", prefix: None, target: "aws_internet_gateway" },
        RefRule { attr: "gateway_id", prefix: None, target: "aws_internet_gateway" },
        RefRule { attr: "nat_gateway_id", prefix: None, target: "aws_nat_gateway" },
        RefRule { attr: "network_interface_id", prefix: None, target: "aws_network_interface" },
        RefRule { attr: "eip_id", prefix: None, target: "aws_eip" },
        RefRule { attr: "allocation_id", prefix: None, target: "aws_eip" },
        RefRule { attr: "network_acl_id", prefix: None, target: "aws_network_acl" },
        RefRule { attr: "role_arn", prefix: None, target: "aws_iam_role" },
        RefRule { attr: "role", prefix: Some("aws_iam_"), target: "aws_iam_role" },
        RefRule { attr: "policy_arn", prefix: None, target: "aws_iam_policy" },
        RefRule { attr: "instance_profile_arn", prefix: None, target: "aws_iam_instance_profile" },
        RefRule { attr: "iam_instance_profile", prefix: None, target: "aws_iam_instance_profile" },
        RefRule { attr: "bucket", prefix: Some("aws_s3_"), target: "aws_s3_bucket" },
        RefRule { attr: "target_group_arn", prefix: None, target: "aws_lb_target_group" },
        RefRule { attr: "load_balancer_arn", prefix: None, target: "aws_lb" },
        RefRule { attr: "instance_id", prefix: None, target: "aws_instance" },
        RefRule { attr: "ami", prefix: None, target: "aws_ami" },
        RefRule { attr: "key_name", prefix: None, target: "aws_key_pair" },
        RefRule { attr: "launch_template_id", prefix: None, target: "aws_launch_template" },
        RefRule { attr: "placement_group", prefix: None, target: "aws_placement_group" },
        RefRule { attr: "kms_key_id", prefix: None, target: "aws_kms_key" },
        RefRule { attr: "kms_key_arn", prefix: None, target: "aws_kms_key" },
        RefRule { attr: "topic_arn", prefix: None, target: "aws_sns_topic" },
        RefRule { attr: "queue_arn", prefix: None, target: "aws_sqs_queue" },
        RefRule { attr: "log_group_name", prefix: None, target: "aws_cloudwatch_log_group" },
        RefRule { attr: "function_name", prefix: Some("aws_lambda_"), target: "aws_lambda_function" },
        RefRule { attr: "cluster", prefix: Some("aws_ecs_"), target: "aws_ecs_cluster" },
        RefRule { attr: "task_definition", prefix: None, target: "aws_ecs_task_definition" },
        RefRule { attr: "certificate_arn", prefix: None, target: "aws_acm_certificate" },
        RefRule { attr: "zone_id", prefix: None, target: "aws_route53_zone" },
        RefRule { attr: "db_subnet_group_name", prefix: None, target: "aws_db_subnet_group" },
        RefRule { attr: "parameter_group_name", prefix: Some("aws_db_"), target: "aws_db_parameter_group" },
    ];
    assert(rules_view(v@) =~= ref_rules());
    v
}

/// `name` without one trailing `s`.
pub open spec fn singular(name: Seq<char>) -> Seq<char> {
    if name.len() > 0 && name.last() == 's' {
        name.drop_last()
    } else {
        name
    }
}

fn singular_name(name: &str) -> (r: String)
    ensures
        r@ == singular(name@),
{
    let c = chars_of(name);
    let n: usize = c.len();
    if n > 0 && c[n - 1] == 's' {
        assert(name@.subrange(0, n - 1) =~= name@.drop_last());
        string_sub(c.as_slice(), 0, n - 1)
    } else {
        name.to_owned()
    }
}

/// What one entry says of an attribute of a resource.
pub open spec fn rule_target(
    resource_type: Seq<char>,
    attr: Seq<char>,
) -> spec_fn((Seq<char>, Option<Seq<char>>, Seq<char>)) -> Option<Seq<char>> {
    |rule: (Seq<char>, Option<Seq<char>>, Seq<char>)|
        if rule.0 == attr && (rule.1 matches Some(p) ==> starts_with(resource_type, p)) {
            Some(rule.2)
        } else {
            None
        }
}

/// The first entry of the table that fits, for the singular of the attribute.
pub open spec fn referenced_type(resource_type: Seq<char>, attr_name: Seq<char>) -> Option<
    Seq<char>,
> {
    find_map(ref_rules(), rule_target(resource_type, singular(attr_name)))
}

/// The resource type that an attribute of a resource likely refers to.
pub fn referenced_resource_type(resource_type: &str, attr_name: &str) -> (r: Option<&'static str>)
    ensures
        opt_str(r) == referenced_type(resource_type@, attr_name@),
{
    explicit_lookup(resource_type, attr_name)
}

/// The table on its own.
pub fn explicit_lookup(resource_type: &str, attr_name: &str) -> (r: Option<&'static str>)
    ensures
        opt_str(r) == referenced_type(resource_type@, attr_name@),
{
    let attr = singular_name(attr_name);
    let rules = rule_table();
    let ghost f = rule_target(resource_type@, attr@);
    proof {
        lemma_take_full(ref_rules());
    }
    for i in 0..rules.len()
        invariant
            rules_view(rules@) == ref_rules(),
            attr@ == singular(attr_name@),
            f == rule_target(resource_type@, attr@),
            find_map(ref_rules(), f) == find_map(ref_rules().skip(i as int), f),
    {
        proof {
            lemma_find_map_step(ref_rules(), f, i as int);
            assert(rules_view(rules@).len() == ref_rules().len());
            assert(ref_rules()[i as int] == rules_view(rules@)[i as int]);
        }
        if str_eq(rules[i].attr, attr.as_str()) {
            let fits = match rules[i].prefix {
                Some(p) => str_starts_with(resource_type, p),
                None => true,
            };
            if fits {
                return Some(rules[i].target);
            }
        }
    }
    proof {
        lemma_take_full(ref_rules());
        assert(ref_rules().len() == rules@.len());
    }
    None
}

/// The suffix that a reference for the attribute ends in.
pub open spec fn output_suffix(attr_name: Seq<char>) -> Seq<char> {
    if ends_with(attr_name, "_arn"@) || attr_name == "arn"@ {
        ".arn"@
    } else if ends_with(attr_name, "_name"@) {
        ".name"@
    } else {
        ".id"@
    }
}

/// The attribute of the referred resource that stands for it:
/// `security_group_id` is an `.id`, `role_arn` an `.arn`.
pub fn output_attribute(attr_name: &str) -> (r: &'static str)
    ensures
        r@ == output_suffix(attr_name@),
{
    if str_ends_with(attr_name, "_arn") || str_eq(attr_name, "arn") {
        ".arn"
    } else if str_ends_with(attr_name, "_name") {
        ".name"
    } else {
        ".id"
    }
}

/// A plural attribute refers to what its singular refers to.
pub proof fn plural_refers_like_singular(resource_type: Seq<char>, attr: Seq<char>)
    requires
        attr.len() == 0 || attr.last() != 's',
    ensures
        referenced_type(resource_type, attr.push('s')) == referenced_type(resource_type, attr),
{
    assert(attr.push('s').drop_last() =~= attr);
}

/// The attributes whose target depends on the enclosing resource.
pub open spec fn depends_on_resource(attr: Seq<char>) -> bool {
    attr == "role"@ || attr == "bucket"@ || attr == "function_name"@ || attr == "cluster"@ || attr
        == "parameter_group_name"@
}

/// Two mappings that agree on a sequence find the same in it.
proof fn lemma_find_map_same<A, B>(
    s: Seq<A>,
    f: spec_fn(A) -> Option<B>,
    g: spec_fn(A) -> Option<B>,
)
    requires
        forall|i: int| 0 <= i < s.len() ==> f(#[trigger] s[i]) == g(s[i]),
    ensures
        find_map(s, f) == find_map(s, g),
    decreases s.len(),
{
    if s.len() > 0 {
        assert(f(s[0]) == g(s[0]));
        let rest = s.skip(1);
        assert forall|i: int| 0 <= i < rest.len() implies f(#[trigger] rest[i]) == g(rest[i]) by {
            assert(rest[i] == s[i + 1]);
        }
        lemma_find_map_same(rest, f, g);
    }
}

/// A rule has a prefix only for the attributes that depend on the resource.
proof fn lemma_rule_prefixes(i: int)
    requires
        0 <= i < ref_rules().len(),
    ensures
        ref_rules()[i].1 is Some ==> depends_on_resource(ref_rules()[i].0),
{
}

/// Every rule refers to a type of one provider.
proof fn lemma_rule_targets(i: int)
    requires
        0 <= i < ref_rules().len(),
    ensures
        starts_with(ref_rules()[i].2, "aws_"@),
{
    reveal_strlit("aws_");
    reveal_strlit("aws_security_group");
    reveal_strlit("aws_subnet");
    reveal_strlit("aws_vpc");
    reveal_strlit("aws_route_table");
    reveal_strlit("aws_internet_gateway");
    reveal_strlit("aws_nat_gateway");
    reveal_strlit("aws_network_interface");
    reveal_strlit("aws_eip");
    reveal_strlit("aws_network_acl");
    reveal_strlit("aws_iam_role");
    reveal_strlit("aws_iam_policy");
    reveal_strlit("aws_iam_instance_profile");
    reveal_strlit("aws_s3_bucket");
    reveal_strlit("aws_lb_target_group");
    reveal_strlit("aws_lb");
    reveal_strlit("aws_instance");
    reveal_strlit("aws_ami");
    reveal_strlit("aws_key_pair");
    reveal_strlit("aws_launch_template");
    reveal_strlit("aws_placement_group");
    reveal_strlit("aws_kms_key");
    reveal_strlit("aws_sns_topic");
    reveal_strlit("aws_sqs_queue");
    reveal_strlit("aws_cloudwatch_log_group");
    reveal_strlit("aws_lambda_function");
    reveal_strlit("aws_ecs_cluster");
    reveal_strlit("aws_ecs_task_definition");
    reveal_strlit("aws_acm_certificate");
    reveal_strlit("aws_route53_zone");
    reveal_strlit("aws_db_subnet_group");
    reveal_strlit("aws_db_parameter_group");
    assert(ref_rules()[i].2.subrange(0, 4) =~= "aws_"@);
}

/// But for five attributes, what an attribute refers to does not depend on the
/// resource that has it.
pub proof fn target_depends_on_attribute_alone(
    one: Seq<char>,
    other: Seq<char>,
    attr_name: Seq<char>,
)
    requires
        !depends_on_resource(singular(attr_name)),
    ensures
        referenced_type(one, attr_name) == referenced_type(other, attr_name),
{
    let f = rule_target(one, singular(attr_name));
    let g = rule_target(other, singular(attr_name));
    assert forall|i: int| 0 <= i < ref_rules().len() implies f(#[trigger] ref_rules()[i]) == g(
        ref_rules()[i],
    ) by {
        lemma_rule_prefixes(i);
    }
    lemma_find_map_same(ref_rules(), f, g);
}

/// Every type that an attribute refers to is one of the provider `aws`.
pub proof fn targets_belong_to_aws(resource_type: Seq<char>, attr_name: Seq<char>)
    ensures
        referenced_type(resource_type, attr_name) matches Some(t) ==> starts_with(t, "aws_"@),
{
    let f = rule_target(resource_type, singular(attr_name));
    lemma_found(ref_rules(), f);
    if find_map(ref_rules(), f) is Some {
        let i = choose|i: int|
            0 <= i < ref_rules().len() && f(#[trigger] ref_rules()[i]) == find_map(ref_rules(), f);
        lemma_rule_targets(i);
    }
}

} // verus!
