//! Category and unit inference for discovered cloud services, and the AWS
//! offer defaults (a set of rules, not an allow-list of services).
use vstd::prelude::*;
use crate::catalog::{lemma_category_id_roundtrip, ServiceCategory};
use crate::text::{
    all_ascii, ascii_lower, ascii_upper, is_ascii_char, lemma_lower_of_upper, lemma_words_chars,
    upper_ascii_char,
    chars_of, has_lit, is, join, join_with, lowercase, owned, seq_has, seq_starts, split_words,
    string_of, unicode_lowercase, views, words,
};

verus! {

/// The category id a lower-cased service name falls in.
pub open spec fn category_rule(n: Seq<char>) -> Seq<char> {
    if seq_has(n, "storage"@) || seq_has(n, "s3"@) || seq_has(n, "blob"@) || seq_has(n, "disk"@)
        || seq_has(n, "volume"@) || seq_has(n, "backup"@) || seq_has(n, "archive"@) {
        "storage"@
    } else if seq_has(n, "sql"@) || seq_has(n, "database"@) || seq_has(n, " db"@) || seq_has(
        n,
        "cache"@,
    ) || seq_has(n, "redis"@) || seq_has(n, "dynamo"@) || seq_has(n, "cosmos"@) || seq_has(
        n,
        "firestore"@,
    ) || seq_has(n, "nosql"@) {
        "database"@
    } else if seq_has(n, "kafka"@) || seq_has(n, "queue"@) || seq_has(n, "event hub"@) || seq_has(
        n,
        "pub/sub"@,
    ) || seq_has(n, "pubsub"@) || seq_has(n, "sns"@) || seq_has(n, "sqs"@) || seq_has(
        n,
        "stream"@,
    ) || seq_has(n, "messaging"@) {
        "messaging"@
    } else if seq_has(n, "network"@) || seq_has(n, "load balanc"@) || seq_has(n, "cdn"@)
        || seq_has(n, "dns"@) || seq_has(n, "vpc"@) || seq_has(n, "gateway"@) || seq_has(
        n,
        "firewall"@,
    ) || seq_has(n, "virtual network"@) {
        "networking"@
    } else if seq_has(n, "security"@) || seq_has(n, "waf"@) || seq_has(n, "key vault"@)
        || seq_has(n, "key management"@) || seq_has(n, "identity"@) || seq_has(n, "iam"@)
        || seq_has(n, "armor"@) || seq_has(n, "defender"@) || seq_has(n, "certificate"@) {
        "security"@
    } else if seq_has(n, "machine learning"@) || seq_has(n, "sagemaker"@) || seq_has(n, "vertex"@)
        || seq_has(n, "openai"@) || seq_has(n, "bedrock"@) || seq_has(n, " ai "@) || seq_has(
        n,
        "ml "@,
    ) {
        "ai_ml"@
    } else {
        "compute"@
    }
}

/// The billing unit a lower-cased service name suggests.
pub open spec fn unit_rule(n: Seq<char>) -> Seq<char> {
    if seq_has(n, "storage"@) || seq_has(n, "gb"@) || seq_has(n, "data transfer"@) || seq_has(
        n,
        "backup storage"@,
    ) {
        "gb-month"@
    } else if seq_has(n, "dynamo"@) || seq_has(n, "sns"@) || seq_has(n, "sqs"@) || seq_has(
        n,
        "lambda"@,
    ) || seq_has(n, "api gateway"@) || seq_has(n, "request"@) || seq_has(n, "invocation"@)
        || seq_has(n, "transaction"@) || seq_has(n, "message"@) {
        "million-invocations"@
    } else {
        "hours"@
    }
}

/// Category id for an already lower-cased name.
pub fn category_of_lowercase(n: &Vec<char>) -> (res: &'static str)
    ensures
        res@ == category_rule(n@),
{
    if has_lit(n, "storage") || has_lit(n, "s3") || has_lit(n, "blob") || has_lit(n, "disk") || has_lit(n, "volume")
        || has_lit(n, "backup") || has_lit(n, "archive") {
        "storage"
    } else if has_lit(n, "sql") || has_lit(n, "database") || has_lit(n, " db") || has_lit(n, "cache") || has_lit(
        n,
        "redis",
    ) || has_lit(n, "dynamo") || has_lit(n, "cosmos") || has_lit(n, "firestore") || has_lit(n, "nosql") {
        "database"
    } else if has_lit(n, "kafka") || has_lit(n, "queue") || has_lit(n, "event hub") || has_lit(n, "pub/sub")
        || has_lit(n, "pubsub") || has_lit(n, "sns") || has_lit(n, "sqs") || has_lit(n, "stream") || has_lit(
        n,
        "messaging",
    ) {
        "messaging"
    } else if has_lit(n, "network") || has_lit(n, "load balanc") || has_lit(n, "cdn") || has_lit(n, "dns") || has_lit(
        n,
        "vpc",
    ) || has_lit(n, "gateway") || has_lit(n, "firewall") || has_lit(n, "virtual network") {
        "networking"
    } else if has_lit(n, "security") || has_lit(n, "waf") || has_lit(n, "key vault") || has_lit(
        n,
        "key management",
    ) || has_lit(n, "identity") || has_lit(n, "iam") || has_lit(n, "armor") || has_lit(n, "defender") || has_lit(
        n,
        "certificate",
    ) {
        "security"
    } else if has_lit(n, "machine learning") || has_lit(n, "sagemaker") || has_lit(n, "vertex") || has_lit(
        n,
        "openai",
    ) || has_lit(n, "bedrock") || has_lit(n, " ai ") || has_lit(n, "ml ") {
        "ai_ml"
    } else {
        "compute"
    }
}

/// Category id for a service name, matched case-insensitively.
pub fn infer_category(name: &str) -> (res: &'static str)
    ensures
        res@ == category_rule(unicode_lowercase(name@)),
        all_ascii(name@) ==> res@ == category_rule(ascii_lower(name@)),
        ServiceCategory::from_id_spec(res@).id_spec() == res@,
{
    let lower = lowercase(name);
    let n = chars_of(lower.as_str());
    proof {
        lemma_category_rule_is_category(n@);
    }
    category_of_lowercase(&n)
}

/// Every category a name can fall in is a catalog category: reading the id
/// back gives the same id.
pub proof fn lemma_category_rule_is_category(n: Seq<char>)
    ensures
        ServiceCategory::from_id_spec(category_rule(n)).id_spec() == category_rule(n),
{
    reveal_strlit("compute");
    reveal_strlit("storage");
    reveal_strlit("database");
    reveal_strlit("messaging");
    reveal_strlit("networking");
    reveal_strlit("security");
    reveal_strlit("ai_ml");
    let r = category_rule(n);
    if r == "storage"@ {
        lemma_category_id_roundtrip(ServiceCategory::Storage);
    } else if r == "database"@ {
        lemma_category_id_roundtrip(ServiceCategory::Database);
    } else if r == "messaging"@ {
        lemma_category_id_roundtrip(ServiceCategory::Messaging);
    } else if r == "networking"@ {
        lemma_category_id_roundtrip(ServiceCategory::Networking);
    } else if r == "security"@ {
        lemma_category_id_roundtrip(ServiceCategory::Security);
    } else if r == "ai_ml"@ {
        lemma_category_id_roundtrip(ServiceCategory::AiMl);
    } else {
        lemma_category_id_roundtrip(ServiceCategory::Compute);
    }
}

/// The category of an ASCII name does not depend on its letter case: the
/// name upper-cased (still ASCII) falls in the same category.
pub proof fn lemma_category_ignores_ascii_case(name: Seq<char>)
    requires
        all_ascii(name),
    ensures
        all_ascii(ascii_upper(name)),
        category_rule(ascii_lower(ascii_upper(name))) == category_rule(ascii_lower(name)),
{
    lemma_lower_of_upper(name);
}

/// A service name falls in Storage: a lower-cased name mentioning storage, S3, blobs, disks, volumes, backups or archives.
pub proof fn lemma_category_storage(n: Seq<char>)
    requires
        seq_has(n, "storage"@) || seq_has(n, "s3"@) || seq_has(n, "blob"@) || seq_has(n, "disk"@) || seq_has(n, "volume"@) || seq_has(n, "backup"@) || seq_has(n, "archive"@),
    ensures
        category_rule(n) == "storage"@,
{
}

/// A service name falls in Database: no storage word, and a mention of SQL, databases, ` db`, caches, Redis, DynamoDB, Cosmos, Firestore or NoSQL.
pub proof fn lemma_category_database(n: Seq<char>)
    requires
        !seq_has(n, "storage"@) && !seq_has(n, "s3"@) && !seq_has(n, "blob"@) && !seq_has(n, "disk"@) && !seq_has(n, "volume"@) && !seq_has(n, "backup"@) && !seq_has(n, "archive"@),
        seq_has(n, "sql"@) || seq_has(n, "database"@) || seq_has(n, " db"@) || seq_has(n, "cache"@) || seq_has(n, "redis"@) || seq_has(n, "dynamo"@) || seq_has(n, "cosmos"@) || seq_has(n, "firestore"@) || seq_has(n, "nosql"@),
    ensures
        category_rule(n) == "database"@,
{
}

/// A service name falls in Messaging: no storage or database word, and a mention of Kafka, queues, event hubs, pub/sub, SNS, SQS, streams or messaging.
pub proof fn lemma_category_messaging(n: Seq<char>)
    requires
        !seq_has(n, "storage"@) && !seq_has(n, "s3"@) && !seq_has(n, "blob"@) && !seq_has(n, "disk"@) && !seq_has(n, "volume"@) && !seq_has(n, "backup"@) && !seq_has(n, "archive"@),
        !seq_has(n, "sql"@) && !seq_has(n, "database"@) && !seq_has(n, " db"@) && !seq_has(n, "cache"@) && !seq_has(n, "redis"@) && !seq_has(n, "dynamo"@) && !seq_has(n, "cosmos"@) && !seq_has(n, "firestore"@) && !seq_has(n, "nosql"@),
        seq_has(n, "kafka"@) || seq_has(n, "queue"@) || seq_has(n, "event hub"@) || seq_has(n, "pub/sub"@) || seq_has(n, "pubsub"@) || seq_has(n, "sns"@) || seq_has(n, "sqs"@) || seq_has(n, "stream"@) || seq_has(n, "messaging"@),
    ensures
        category_rule(n) == "messaging"@,
{
}

/// A service name falls in Networking: none of the above, and a mention of networks, load balancing, CDNs, DNS, VPCs, gateways or firewalls.
pub proof fn lemma_category_networking(n: Seq<char>)
    requires
        !seq_has(n, "storage"@) && !seq_has(n, "s3"@) && !seq_has(n, "blob"@) && !seq_has(n, "disk"@) && !seq_has(n, "volume"@) && !seq_has(n, "backup"@) && !seq_has(n, "archive"@),
        !seq_has(n, "sql"@) && !seq_has(n, "database"@) && !seq_has(n, " db"@) && !seq_has(n, "cache"@) && !seq_has(n, "redis"@) && !seq_has(n, "dynamo"@) && !seq_has(n, "cosmos"@) && !seq_has(n, "firestore"@) && !seq_has(n, "nosql"@),
        !seq_has(n, "kafka"@) && !seq_has(n, "queue"@) && !seq_has(n, "event hub"@) && !seq_has(n, "pub/sub"@) && !seq_has(n, "pubsub"@) && !seq_has(n, "sns"@) && !seq_has(n, "sqs"@) && !seq_has(n, "stream"@) && !seq_has(n, "messaging"@),
        seq_has(n, "network"@) || seq_has(n, "load balanc"@) || seq_has(n, "cdn"@) || seq_has(n, "dns"@) || seq_has(n, "vpc"@) || seq_has(n, "gateway"@) || seq_has(n, "firewall"@) || seq_has(n, "virtual network"@),
    ensures
        category_rule(n) == "networking"@,
{
}

/// A service name falls in Security: none of the above, and a mention of security, WAF, key vaults or key management, identity, IAM, armor, defender or certificates.
pub proof fn lemma_category_security(n: Seq<char>)
    requires
        !seq_has(n, "storage"@) && !seq_has(n, "s3"@) && !seq_has(n, "blob"@) && !seq_has(n, "disk"@) && !seq_has(n, "volume"@) && !seq_has(n, "backup"@) && !seq_has(n, "archive"@),
        !seq_has(n, "sql"@) && !seq_has(n, "database"@) && !seq_has(n, " db"@) && !seq_has(n, "cache"@) && !seq_has(n, "redis"@) && !seq_has(n, "dynamo"@) && !seq_has(n, "cosmos"@) && !seq_has(n, "firestore"@) && !seq_has(n, "nosql"@),
        !seq_has(n, "kafka"@) && !seq_has(n, "queue"@) && !seq_has(n, "event hub"@) && !seq_has(n, "pub/sub"@) && !seq_has(n, "pubsub"@) && !seq_has(n, "sns"@) && !seq_has(n, "sqs"@) && !seq_has(n, "stream"@) && !seq_has(n, "messaging"@),
        !seq_has(n, "network"@) && !seq_has(n, "load balanc"@) && !seq_has(n, "cdn"@) && !seq_has(n, "dns"@) && !seq_has(n, "vpc"@) && !seq_has(n, "gateway"@) && !seq_has(n, "firewall"@) && !seq_has(n, "virtual network"@),
        seq_has(n, "security"@) || seq_has(n, "waf"@) || seq_has(n, "key vault"@) || seq_has(n, "key management"@) || seq_has(n, "identity"@) || seq_has(n, "iam"@) || seq_has(n, "armor"@) || seq_has(n, "defender"@) || seq_has(n, "certificate"@),
    ensures
        category_rule(n) == "security"@,
{
}

/// A service name falls in AI / ML: none of the above, and a mention of machine learning, SageMaker, Vertex, OpenAI, Bedrock, ` ai ` or `ml `.
pub proof fn lemma_category_ai_ml(n: Seq<char>)
    requires
        !seq_has(n, "storage"@) && !seq_has(n, "s3"@) && !seq_has(n, "blob"@) && !seq_has(n, "disk"@) && !seq_has(n, "volume"@) && !seq_has(n, "backup"@) && !seq_has(n, "archive"@),
        !seq_has(n, "sql"@) && !seq_has(n, "database"@) && !seq_has(n, " db"@) && !seq_has(n, "cache"@) && !seq_has(n, "redis"@) && !seq_has(n, "dynamo"@) && !seq_has(n, "cosmos"@) && !seq_has(n, "firestore"@) && !seq_has(n, "nosql"@),
        !seq_has(n, "kafka"@) && !seq_has(n, "queue"@) && !seq_has(n, "event hub"@) && !seq_has(n, "pub/sub"@) && !seq_has(n, "pubsub"@) && !seq_has(n, "sns"@) && !seq_has(n, "sqs"@) && !seq_has(n, "stream"@) && !seq_has(n, "messaging"@),
        !seq_has(n, "network"@) && !seq_has(n, "load balanc"@) && !seq_has(n, "cdn"@) && !seq_has(n, "dns"@) && !seq_has(n, "vpc"@) && !seq_has(n, "gateway"@) && !seq_has(n, "firewall"@) && !seq_has(n, "virtual network"@),
        !seq_has(n, "security"@) && !seq_has(n, "waf"@) && !seq_has(n, "key vault"@) && !seq_has(n, "key management"@) && !seq_has(n, "identity"@) && !seq_has(n, "iam"@) && !seq_has(n, "armor"@) && !seq_has(n, "defender"@) && !seq_has(n, "certificate"@),
        seq_has(n, "machine learning"@) || seq_has(n, "sagemaker"@) || seq_has(n, "vertex"@) || seq_has(n, "openai"@) || seq_has(n, "bedrock"@) || seq_has(n, " ai "@) || seq_has(n, "ml "@),
    ensures
        category_rule(n) == "ai_ml"@,
{
}

/// Compute: a name with none of the words of the other categories.
pub proof fn lemma_category_compute(n: Seq<char>)
    requires
        !seq_has(n, "storage"@) && !seq_has(n, "s3"@) && !seq_has(n, "blob"@) && !seq_has(n, "disk"@) && !seq_has(n, "volume"@) && !seq_has(n, "backup"@) && !seq_has(n, "archive"@),
        !seq_has(n, "sql"@) && !seq_has(n, "database"@) && !seq_has(n, " db"@) && !seq_has(n, "cache"@) && !seq_has(n, "redis"@) && !seq_has(n, "dynamo"@) && !seq_has(n, "cosmos"@) && !seq_has(n, "firestore"@) && !seq_has(n, "nosql"@),
        !seq_has(n, "kafka"@) && !seq_has(n, "queue"@) && !seq_has(n, "event hub"@) && !seq_has(n, "pub/sub"@) && !seq_has(n, "pubsub"@) && !seq_has(n, "sns"@) && !seq_has(n, "sqs"@) && !seq_has(n, "stream"@) && !seq_has(n, "messaging"@),
        !seq_has(n, "network"@) && !seq_has(n, "load balanc"@) && !seq_has(n, "cdn"@) && !seq_has(n, "dns"@) && !seq_has(n, "vpc"@) && !seq_has(n, "gateway"@) && !seq_has(n, "firewall"@) && !seq_has(n, "virtual network"@),
        !seq_has(n, "security"@) && !seq_has(n, "waf"@) && !seq_has(n, "key vault"@) && !seq_has(n, "key management"@) && !seq_has(n, "identity"@) && !seq_has(n, "iam"@) && !seq_has(n, "armor"@) && !seq_has(n, "defender"@) && !seq_has(n, "certificate"@),
        !seq_has(n, "machine learning"@) && !seq_has(n, "sagemaker"@) && !seq_has(n, "vertex"@) && !seq_has(n, "openai"@) && !seq_has(n, "bedrock"@) && !seq_has(n, " ai "@) && !seq_has(n, "ml "@),
    ensures
        category_rule(n) == "compute"@,
{
}

/// A lower-cased name mentioning storage, GB, data transfer or backup storage
/// is billed per GB-month.
pub proof fn lemma_unit_gb_month(n: Seq<char>)
    requires
        seq_has(n, "storage"@) || seq_has(n, "gb"@) || seq_has(n, "data transfer"@) || seq_has(n, "backup storage"@),
    ensures
        unit_rule(n) == "gb-month"@,
{
}

/// Without those words, a name mentioning DynamoDB, SNS, SQS, Lambda, API
/// gateways, requests, invocations, transactions or messages is billed per
/// million invocations; any other name is billed by the hour.
pub proof fn lemma_unit_invocations_or_hours(n: Seq<char>)
    requires
        !(seq_has(n, "storage"@) || seq_has(n, "gb"@) || seq_has(n, "data transfer"@) || seq_has(n, "backup storage"@)),
    ensures
        (seq_has(n, "dynamo"@) || seq_has(n, "sns"@) || seq_has(n, "sqs"@) || seq_has(n, "lambda"@) || seq_has(n, "api gateway"@) || seq_has(n, "request"@) || seq_has(n, "invocation"@) || seq_has(n, "transaction"@) || seq_has(n, "message"@)) ==> unit_rule(n) == "million-invocations"@,
        !(seq_has(n, "dynamo"@) || seq_has(n, "sns"@) || seq_has(n, "sqs"@) || seq_has(n, "lambda"@) || seq_has(n, "api gateway"@) || seq_has(n, "request"@) || seq_has(n, "invocation"@) || seq_has(n, "transaction"@) || seq_has(n, "message"@)) ==> unit_rule(n) == "hours"@,
{
}

/// Billing unit for an already lower-cased name.
pub fn unit_of_lowercase(n: &Vec<char>) -> (res: &'static str)
    ensures
        res@ == unit_rule(n@),
{
    if has_lit(n, "storage") || has_lit(n, "gb") || has_lit(n, "data transfer") || has_lit(n, "backup storage") {
        "gb-month"
    } else if has_lit(n, "dynamo") || has_lit(n, "sns") || has_lit(n, "sqs") || has_lit(n, "lambda") || has_lit(
        n,
        "api gateway",
    ) || has_lit(n, "request") || has_lit(n, "invocation") || has_lit(n, "transaction") || has_lit(
        n,
        "message",
    ) {
        "million-invocations"
    } else {
        "hours"
    }
}

/// Billing unit for a service name, matched case-insensitively.
pub fn infer_unit(name: &str) -> (res: &'static str)
    ensures
        res@ == unit_rule(unicode_lowercase(name@)),
        all_ascii(name@) ==> res@ == unit_rule(ascii_lower(name@)),
{
    let lower = lowercase(name);
    let n = chars_of(lower.as_str());
    unit_of_lowercase(&n)
}

/// Token-priced LLM APIs, which belong under token usage, not infrastructure.
pub open spec fn is_llm_token_service_spec(key: Seq<char>) -> bool {
    key == "AmazonBedrockFoundationModels"@
}

pub fn is_llm_token_service(service_key: &str) -> (res: bool)
    ensures
        res == is_llm_token_service_spec(service_key@),
{
    let k = chars_of(service_key);
    is(&k, "AmazonBedrockFoundationModels")
}

/// The offers whose SKU is chosen by instance type.
pub open spec fn has_instance_type_attr(offer: Seq<char>) -> bool {
    offer == "AmazonEC2"@ || offer == "AmazonRDS"@ || offer == "AmazonElastiCache"@ || offer
        == "AmazonRedshift"@ || offer == "AmazonES"@
}

/// AWS Price List attribute used to pick a configurable SKU.
pub fn aws_attr_key(offer_code: &str) -> (res: Option<&'static str>)
    ensures
        has_instance_type_attr(offer_code@) ==> (res matches Some(k) && k@ == "instanceType"@),
        !has_instance_type_attr(offer_code@) ==> res is None,
{
    let o = chars_of(offer_code);
    if is(&o, "AmazonEC2") || is(&o, "AmazonRDS") || is(&o, "AmazonElastiCache") || is(
        &o,
        "AmazonRedshift",
    ) || is(&o, "AmazonES") {
        Some("instanceType")
    } else {
        None
    }
}

/// The SKU an AWS offer starts from.
pub open spec fn aws_default_sku_spec(offer: Seq<char>) -> Seq<char> {
    if offer == "AmazonEC2"@ {
        "t3.micro"@
    } else if offer == "AmazonRDS"@ {
        "db.t3.micro"@
    } else if offer == "AmazonElastiCache"@ {
        "cache.t3.micro"@
    } else if offer == "AmazonRedshift"@ {
        "dc2.large"@
    } else if offer == "AmazonES"@ {
        "t3.small.elasticsearch"@
    } else {
        offer
    }
}

pub fn aws_default_sku(offer_code: &str) -> (res: String)
    ensures
        res@ == aws_default_sku_spec(offer_code@),
{
    let o = chars_of(offer_code);
    if is(&o, "AmazonEC2") {
        owned("t3.micro")
    } else if is(&o, "AmazonRDS") {
        owned("db.t3.micro")
    } else if is(&o, "AmazonElastiCache") {
        owned("cache.t3.micro")
    } else if is(&o, "AmazonRedshift") {
        owned("dc2.large")
    } else if is(&o, "AmazonES") {
        owned("t3.small.elasticsearch")
    } else {
        owned(offer_code)
    }
}

/// `s` with every leading repetition of a non-empty `p` removed
/// (`str::trim_start_matches`).
pub open spec fn strip_leading(s: Seq<char>, p: Seq<char>) -> Seq<char>
    decreases s.len(),
{
    if p.len() > 0 && seq_starts(s, p) {
        strip_leading(s.subrange(p.len() as int, s.len() as int), p)
    } else {
        s
    }
}

/// `_` and `-` read as spaces.
pub open spec fn dash_to_space(c: char) -> char {
    if c == '_' || c == '-' {
        ' '
    } else {
        c
    }
}

/// Name for what `char::to_uppercase` yields for a character (Unicode upper-casing).
pub uninterp spec fn unicode_uppercase_char(c: char) -> Seq<char>;

/// Calls `char::to_uppercase` and collects it. Claimed: the text is
/// `unicode_uppercase_char`; for ASCII `a`..`z` it is the matching capital and
/// every other ASCII character maps to itself.
#[verifier::external_body]
fn upper_char(c: char) -> (res: String)
    ensures
        res@ == unicode_uppercase_char(c),
        'a' <= c <= 'z' ==> res@ == seq![((c as u32) - 32) as char],
        (c as u32) < 128 && !('a' <= c <= 'z') ==> res@ == seq![c],
{
    c.to_uppercase().collect::<String>()
}

/// The word with its first character upper-cased.
pub open spec fn capitalized(w: Seq<char>) -> Seq<char> {
    if w.len() == 0 {
        w
    } else {
        unicode_uppercase_char(w[0]) + w.drop_first()
    }
}

/// The word with its first character upper-cased, for a word that starts
/// with an ASCII character: `a`..`z` become capitals, other characters stay.
pub open spec fn capitalized_ascii(w: Seq<char>) -> Seq<char> {
    if w.len() == 0 {
        w
    } else {
        seq![upper_ascii_char(w[0])] + w.drop_first()
    }
}

/// `humanized` for an ASCII key, where upper-casing is the ASCII one.
pub open spec fn humanized_ascii(key: Seq<char>) -> Seq<char> {
    let stripped = strip_leading(
        strip_leading(strip_leading(key, "Amazon"@), "Azure"@),
        "Google"@,
    );
    let spaced = stripped.map_values(|c: char| dash_to_space(c));
    join_with(words(spaced).map_values(|w: Seq<char>| capitalized_ascii(w)), " "@)
}

/// Removing leading copies of a prefix keeps ASCII text ASCII.
proof fn lemma_strip_leading_ascii(s: Seq<char>, p: Seq<char>)
    requires
        all_ascii(s),
    ensures
        all_ascii(strip_leading(s, p)),
    decreases s.len(),
{
    if p.len() > 0 && seq_starts(s, p) {
        let t = s.subrange(p.len() as int, s.len() as int);
        assert forall|i: int| 0 <= i < t.len() implies is_ascii_char(#[trigger] t[i]) by {
            assert(t[i] == s[i + p.len()]);
        }
        lemma_strip_leading_ascii(t, p);
    }
}

/// A readable label for a provider service key: vendor prefixes removed,
/// `_`/`-` as spaces, words capitalised and joined by single spaces.
pub open spec fn humanized(key: Seq<char>) -> Seq<char> {
    let stripped = strip_leading(
        strip_leading(strip_leading(key, "Amazon"@), "Azure"@),
        "Google"@,
    );
    let spaced = stripped.map_values(|c: char| dash_to_space(c));
    join_with(words(spaced).map_values(|w: Seq<char>| capitalized(w)), " "@)
}

fn strip_prefix_all(s: Vec<char>, lit: &str) -> (res: Vec<char>)
    ensures
        res@ == strip_leading(s@, lit@),
    decreases s.len(),
{
    let p = chars_of(lit);
    if p.len() > 0 && crate::text::begins(&s, lit) {
        let mut rest: Vec<char> = Vec::new();
        let mut k = p.len();
        while k < s.len()
            invariant
                p.len() <= k <= s.len(),
                rest@ == s@.subrange(p.len() as int, k as int),
            decreases s.len() - k,
        {
            rest.push(s[k]);
            assert(s@.subrange(p.len() as int, k + 1) =~= s@.subrange(p.len() as int, k as int).push(s@[k as int]));
            k = k + 1;
        }
        strip_prefix_all(rest, lit)
    } else {
        s
    }
}

fn capitalize(w: &Vec<char>) -> (res: Vec<char>)
    ensures
        res@ == capitalized(w@),
        w@.len() > 0 && is_ascii_char(w@[0]) ==> res@ == capitalized_ascii(w@),
{
    if w.len() == 0 {
        return Vec::new();
    }
    let up = upper_char(w[0]);
    let mut out = chars_of(up.as_str());
    let mut k: usize = 1;
    let ghost base = out@;
    while k < w.len()
        invariant
            1 <= k <= w.len(),
            out@ == base + w@.subrange(1, k as int),
        decreases w.len() - k,
    {
        out.push(w[k]);
        assert(w@.subrange(1, k + 1) =~= w@.subrange(1, k as int).push(w@[k as int]));
        k = k + 1;
    }
    assert(w@.subrange(1, w.len() as int) =~= w@.drop_first());
    out
}

/// The readable label of a provider service key (see `humanized`); for an
/// ASCII key the capitals are the ASCII ones.
pub fn humanize_service_key(key: &str) -> (res: String)
    ensures
        res@ == humanized(key@),
        all_ascii(key@) ==> res@ == humanized_ascii(key@),
{
    let k0 = chars_of(key);
    let k1 = strip_prefix_all(k0, "Amazon");
    let k2 = strip_prefix_all(k1, "Azure");
    let k3 = strip_prefix_all(k2, "Google");
    let mut spaced: Vec<char> = Vec::new();
    let mut i: usize = 0;
    while i < k3.len()
        invariant
            i <= k3.len(),
            spaced@ == k3@.take(i as int).map_values(|c: char| dash_to_space(c)),
        decreases k3.len() - i,
    {
        let c = k3[i];
        let d = if c == '_' || c == '-' { ' ' } else { c };
        spaced.push(d);
        assert(k3@.take(i + 1).map_values(|c: char| dash_to_space(c)) =~= k3@.take(i as int).map_values(|c: char| dash_to_space(c)).push(d));
        i = i + 1;
    }
    assert(k3@.take(k3.len() as int) =~= k3@);
    let ghost ascii = all_ascii(key@);
    proof {
        if ascii {
            lemma_strip_leading_ascii(key@, "Amazon"@);
            lemma_strip_leading_ascii(strip_leading(key@, "Amazon"@), "Azure"@);
            lemma_strip_leading_ascii(strip_leading(strip_leading(key@, "Amazon"@), "Azure"@), "Google"@);
            assert forall|i: int| 0 <= i < spaced@.len() implies is_ascii_char(#[trigger] spaced@[i]) by {
                assert(spaced@[i] == dash_to_space(k3@[i]));
            }
            lemma_words_chars(spaced@, |c: char| is_ascii_char(c));
        }
    }
    let ws = split_words(&spaced);
    let mut caps: Vec<Vec<char>> = Vec::new();
    let mut j: usize = 0;
    while j < ws.len()
        invariant
            j <= ws.len(),
            views(ws@) == words(spaced@),
            views(caps@) == views(ws@).take(j as int).map_values(|w: Seq<char>| capitalized(w)),
            ascii ==> forall|k: int, i: int|
                0 <= k < words(spaced@).len() && 0 <= i < words(spaced@)[k].len() ==> is_ascii_char(
                    #[trigger] words(spaced@)[k][i],
                ),
            ascii ==> views(caps@) == views(ws@).take(j as int).map_values(
                |w: Seq<char>| capitalized_ascii(w),
            ),
        decreases ws.len() - j,
    {
        proof {
            assert(views(ws@)[j as int] == ws@[j as int]@);
            if ascii && ws@[j as int]@.len() > 0 {
                assert(is_ascii_char(words(spaced@)[j as int][0]));
            }
        }
        let cw = capitalize(&ws[j]);
        let ghost before = caps@;
        caps.push(cw);
        assert(views(caps@) =~= views(before).push(cw@));
        assert(views(ws@).take(j + 1).map_values(|w: Seq<char>| capitalized(w)) =~= views(ws@).take(j as int).map_values(|w: Seq<char>| capitalized(w)).push(capitalized(ws@[j as int]@)));
        assert(views(ws@).take(j + 1).map_values(|w: Seq<char>| capitalized_ascii(w)) =~= views(ws@).take(j as int).map_values(|w: Seq<char>| capitalized_ascii(w)).push(capitalized_ascii(ws@[j as int]@)));
        j = j + 1;
    }
    assert(views(ws@).take(ws.len() as int) =~= views(ws@));
    let joined = join(&caps, " ");
    string_of(&joined)
}

} // verus!
