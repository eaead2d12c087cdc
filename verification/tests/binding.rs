//! What binds a plan to a recovery point and to a signed authorization.
use std::collections::BTreeMap;

use logweir::clock::Timestamp;
use logweir::drill::binding::{
    check_point_shape, verify_point_binding, verify_standing_authorization, AuthorizationKey,
    AuthorizationNames, KeyTrial, PointQuestion, PointReads, ReceiptArchive, StandingAuthorization,
    StandingQuestion, StandingReads, StoreFault, VerifiedStandingAuthorization,
    POINT_BINDING_MISMATCH, REHEARSAL_SCOPE_VIOLATION,
};
use logweir::drill::error::DrillError;
use logweir::drill::spec::{
    AllowedClusters, Anchor, AuthSpec, DrillSpec, Notifications, ObjectivesSpec, PointBinding,
    SampleSpec, SourceSpec, TargetMode, TargetSpec,
};
use logweir::drill::step::Step;
use logweir::exit::ExitCode;

const ID_OPENING: &str = "lwp1-";
const AUTHORIZATION_INVALID: &str = "AuthorizationInvalid";
const AUTHORIZATION_EXPIRED: &str = "AuthorizationExpired";

const RECEIPT_KEY: &str = "logweir/backups/nightly-7/run-1.receipt.json";

fn manifest_key() -> String {
    ["logweir/backups/nightly-7/run-1.manifest", "json"].join(".")
}

/// Sixty-four lower-case hexadecimal digits that stand for some bytes.
fn digest_hex(bytes: &[u8]) -> String {
    let mut out = String::new();
    for lane in 0u64..4 {
        let mut h: u64 = 0xcbf2_9ce4_8422_2325 ^ (lane.wrapping_mul(0x9e37_79b9_7f4a_7c15));
        for b in bytes {
            h = (h ^ u64::from(*b)).wrapping_mul(0x0000_0100_0000_01b3);
        }
        out.push_str(&format!("{h:016x}"));
    }
    out
}

fn digest(bytes: &[u8]) -> String {
    format!("sha256:{}", digest_hex(bytes))
}

fn point_id(bytes: &[u8]) -> String {
    format!("{ID_OPENING}{}", &digest_hex(bytes)[..32])
}

fn receipt_bytes(manifest_key: &str, manifest_sha256: &str) -> Vec<u8> {
    format!(
        "{{\"run_id\":\"run-1\",\"archive\":{{\"manifest_key\":\"{manifest_key}\",\
         \"manifest_sha256\":\"{manifest_sha256}\"}}}}"
    )
    .into_bytes()
}

fn parse_receipt(bytes: &[u8]) -> Result<ReceiptArchive, String> {
    let value: serde_json::Value =
        serde_json::from_slice(bytes).map_err(|e| e.to_string())?;
    let text = |pointer: &str| {
        value
            .pointer(pointer)
            .and_then(serde_json::Value::as_str)
            .map(str::to_string)
            .ok_or_else(|| format!("missing {pointer}"))
    };
    Ok(ReceiptArchive {
        manifest_key: text("/archive/manifest_key")?,
        manifest_sha256: text("/archive/manifest_sha256")?,
    })
}

type Objects = BTreeMap<String, Vec<u8>>;

struct Archive {
    objects: Objects,
    binding: PointBinding,
}

fn archive() -> Archive {
    let manifest = br#"{"topics":[]}"#.to_vec();
    let manifest_sha256 = digest(&manifest);
    let receipt = receipt_bytes(&manifest_key(), &manifest_sha256);
    let binding = PointBinding {
        point_id: point_id(&receipt),
        receipt_key: RECEIPT_KEY.to_string(),
        receipt_sha256: digest(&receipt),
        manifest_sha256,
    };
    let mut objects = Objects::new();
    objects.insert(RECEIPT_KEY.to_string(), receipt);
    objects.insert(manifest_key(), manifest);
    Archive { objects, binding }
}

fn at(text: &str) -> Timestamp {
    let t = chrono::DateTime::parse_from_rfc3339(text).unwrap();
    Timestamp::new(t.timestamp(), t.timestamp_subsec_nanos()).unwrap()
}

fn plan_with(point: Option<PointBinding>) -> DrillSpec {
    DrillSpec {
        name: None,
        source: SourceSpec {
            storage: "filesystem:/tmp/logweir-binding-fixture".to_string(),
            backup: "latestCompleted".to_string(),
            topics: vec!["orders".to_string()],
            point,
        },
        target: TargetSpec {
            bootstrap_servers: vec!["target:9092".to_string()],
            auth: AuthSpec::Plaintext,
            mode: TargetMode::Scratch,
            marker_topic: "logweir.scratch".to_string(),
            topic_mapping_prefix: "rehearsal-3f2a91c7-".to_string(),
            default_replication_factor: 1,
            teardown: String::new(),
        },
        sample: SampleSpec {
            window_start: at("2026-01-01T00:00:00Z"),
            window_end: at("2026-01-02T00:00:00Z"),
            records_per_partition: 25,
            anchor: Anchor::Head,
            max_partitions: Some(200),
        },
        point_in_time: None,
        objectives: ObjectivesSpec {
            rto_seconds: Some(1800),
            rpo_seconds: None,
            pass_rate_bits: Some(1.0f64.to_bits()),
        },
        notifications: Notifications {
            webhooks: vec![],
            slack_webhook: None,
            pagerduty_routing_key: None,
            pagerduty_endpoint: None,
        },
    }
}

/// Answers what is asked from the archive, and counts how often it was read.
fn prove(plan: &DrillSpec, objects: &Objects, read: &mut usize) -> Result<Option<String>, DrillError> {
    let mut reads = PointReads {
        receipt_sha256: None,
        derived_id: None,
        receipt: None,
        manifest_sha256: None,
    };
    let mut last: Vec<u8> = Vec::new();
    loop {
        match verify_point_binding(plan, ID_OPENING, &reads) {
            Step::Done(r) => return r,
            Step::Ask(PointQuestion::FetchReceipt(key)) => {
                *read += 1;
                reads.receipt_sha256 = Some(match objects.get(&key) {
                    Some(bytes) => {
                        last = bytes.clone();
                        Ok(digest(bytes))
                    }
                    None => Err(StoreFault::NotFound),
                });
            }
            Step::Ask(PointQuestion::DeriveId) => reads.derived_id = Some(point_id(&last)),
            Step::Ask(PointQuestion::ParseReceipt) => reads.receipt = Some(parse_receipt(&last)),
            Step::Ask(PointQuestion::FetchManifest(key)) => {
                *read += 1;
                reads.manifest_sha256 = Some(match objects.get(&key) {
                    Some(bytes) => Ok(digest(bytes)),
                    None => Err(StoreFault::NotFound),
                });
            }
        }
    }
}

fn verify_point(plan: &DrillSpec, objects: &Objects) -> Result<Option<String>, DrillError> {
    let mut read = 0;
    prove(plan, objects, &mut read)
}

fn copied(b: &PointBinding) -> PointBinding {
    PointBinding {
        point_id: b.point_id.clone(),
        receipt_key: b.receipt_key.clone(),
        receipt_sha256: b.receipt_sha256.clone(),
        manifest_sha256: b.manifest_sha256.clone(),
    }
}

#[test]
fn a_plan_with_no_point_binding_is_the_v1_shape_and_checks_nothing() {
    let a = archive();
    assert_eq!(
        verify_point(&plan_with(None), &a.objects).expect("no binding, no check"),
        None
    );
}

#[test]
fn a_point_the_archive_holds_is_proven_and_names_itself() {
    let a = archive();
    let id = a.binding.point_id.clone();
    assert_eq!(
        verify_point(&plan_with(Some(a.binding)), &a.objects).expect("the point verifies"),
        Some(id)
    );
}

#[test]
fn a_receipt_key_is_bucket_absolute_and_is_not_requalified() {
    let a = archive();
    let plan = plan_with(Some(a.binding));
    let reads = PointReads {
        receipt_sha256: None,
        derived_id: None,
        receipt: None,
        manifest_sha256: None,
    };
    match verify_point_binding(&plan, ID_OPENING, &reads) {
        Step::Ask(PointQuestion::FetchReceipt(key)) => assert_eq!(key, RECEIPT_KEY),
        other => panic!("{other:?}"),
    }
    assert!(
        verify_point(&plan, &a.objects).is_ok(),
        "a prefixed destination handle must resolve a bucket-absolute receipt key"
    );
}

#[test]
fn a_receipt_digest_that_differs_is_a_refusal_not_a_warning() {
    let a = archive();
    let mut binding = copied(&a.binding);
    binding.receipt_sha256 = format!("sha256:{}", "0".repeat(64));
    let error = verify_point(&plan_with(Some(binding)), &a.objects)
        .expect_err("a tampered point is refused");
    assert!(
        matches!(error, DrillError::Guard(_)),
        "a digest mismatch must be exit 3, got {error:?}"
    );
    assert_eq!(error.exit_code(), ExitCode::GuardRefused);
    assert!(error.message().contains(POINT_BINDING_MISMATCH), "{error:?}");
}

#[test]
fn a_point_id_that_does_not_derive_from_the_receipt_is_refused() {
    let a = archive();
    let mut binding = copied(&a.binding);
    binding.point_id = format!("lwp1-{}", "a".repeat(32));
    let error = verify_point(&plan_with(Some(binding)), &a.objects)
        .expect_err("a relabelled point is refused");
    assert_eq!(error.exit_code(), ExitCode::GuardRefused);
    assert!(error.message().contains("derives recovery point id"), "{error:?}");
}

#[test]
fn a_manifest_digest_the_receipt_contradicts_is_refused() {
    let a = archive();
    let mut binding = copied(&a.binding);
    binding.manifest_sha256 = format!("sha256:{}", "1".repeat(64));
    let error = verify_point(&plan_with(Some(binding)), &a.objects)
        .expect_err("a contradicted manifest digest is refused");
    assert_eq!(error.exit_code(), ExitCode::GuardRefused);
    assert!(error.message().contains("attests manifest digest"), "{error:?}");
}

#[test]
fn a_manifest_the_archive_does_not_hold_is_refused() {
    let mut a = archive();
    a.objects.remove(&manifest_key());
    let error = verify_point(&plan_with(Some(a.binding)), &a.objects)
        .expect_err("a point whose manifest is gone is refused");
    assert_eq!(error.exit_code(), ExitCode::Operational);
    assert!(error.message().contains("is not in the archive"), "{error:?}");
}

#[test]
fn a_manifest_whose_bytes_changed_under_an_intact_receipt_is_refused() {
    let mut a = archive();
    let attested_sha256 = a.binding.manifest_sha256.clone();
    let substituted = br#"{"topics":["swapped"]}"#.to_vec();
    assert_ne!(digest(&substituted), attested_sha256);
    a.objects.insert(manifest_key(), substituted);
    let error = verify_point(&plan_with(Some(a.binding)), &a.objects)
        .expect_err("a substituted manifest is refused");
    assert_eq!(
        error.exit_code(),
        ExitCode::GuardRefused,
        "the archive does not hold what the approver bound to: {error:?}"
    );
    let rendered = error.message();
    assert!(rendered.contains("hashes to"), "{rendered}");
    assert!(rendered.contains(POINT_BINDING_MISMATCH), "{rendered}");
    assert!(rendered.contains(&attested_sha256), "{rendered}");
}

#[test]
fn a_missing_receipt_is_operational_and_not_a_plan_refusal() {
    let binding = PointBinding {
        point_id: format!("lwp1-{}", "c".repeat(32)),
        receipt_key: "logweir/backups/gone/run-1.receipt.json".into(),
        receipt_sha256: format!("sha256:{}", "d".repeat(64)),
        manifest_sha256: format!("sha256:{}", "e".repeat(64)),
    };
    let error = verify_point(&plan_with(Some(binding)), &Objects::new())
        .expect_err("a missing point is refused");
    assert_eq!(error.exit_code(), ExitCode::Operational);
    assert!(error.message().contains("is not in the archive"), "{error:?}");
}

#[test]
fn a_malformed_binding_is_refused_before_the_archive_is_touched() {
    let binding = PointBinding {
        point_id: "not-a-point".into(),
        receipt_key: "  ".into(),
        receipt_sha256: "nope".into(),
        manifest_sha256: "sha256:short".into(),
    };
    let mut read = 0;
    let error = prove(&plan_with(Some(binding)), &Objects::new(), &mut read)
        .expect_err("a malformed binding is refused");
    assert_eq!(read, 0);
    assert_eq!(error.exit_code(), ExitCode::GuardRefused);
    let rendered = error.message();
    for field in ["point_id", "receipt_key", "receipt_sha256", "manifest_sha256"] {
        assert!(rendered.contains(field), "{field} unnamed in: {rendered}");
    }
}

#[test]
fn bytes_that_are_not_a_receipt_are_a_plan_refusal() {
    let bytes = b"{\"not\":\"a receipt\"}".to_vec();
    let binding = PointBinding {
        point_id: point_id(&bytes),
        receipt_key: RECEIPT_KEY.into(),
        receipt_sha256: digest(&bytes),
        manifest_sha256: format!("sha256:{}", "f".repeat(64)),
    };
    let mut objects = Objects::new();
    objects.insert(RECEIPT_KEY.to_string(), bytes);
    let error = verify_point(&plan_with(Some(binding)), &objects)
        .expect_err("non-receipt bytes are refused");
    assert_eq!(error.exit_code(), ExitCode::GuardRefused);
    assert!(error.message().contains("are not a backup receipt"), "{error:?}");
}

#[test]
fn an_archive_that_fails_otherwise_is_operational_and_says_why() {
    let a = archive();
    let reads = PointReads {
        receipt_sha256: Some(Err(StoreFault::Other("the store hung up".to_string()))),
        derived_id: None,
        receipt: None,
        manifest_sha256: None,
    };
    match verify_point_binding(&plan_with(Some(a.binding)), ID_OPENING, &reads) {
        Step::Done(Err(e)) => {
            assert_eq!(e.exit_code(), ExitCode::Operational);
            assert!(e.message().contains("the store hung up"), "{e:?}");
        }
        other => panic!("{other:?}"),
    }
}

#[test]
fn a_well_formed_binding_has_the_expected_shape() {
    let a = archive();
    assert!(check_point_shape(&a.binding, ID_OPENING).is_ok());
    let mut upper = copied(&a.binding);
    upper.receipt_sha256 = format!("sha256:{}", "A".repeat(64));
    assert!(check_point_shape(&upper, ID_OPENING).is_ok());
    upper.point_id = format!("lwp1-{}", "A".repeat(32));
    assert!(check_point_shape(&upper, ID_OPENING).is_err());
    let mut short = copied(&a.binding);
    short.receipt_sha256.pop();
    assert!(check_point_shape(&short, ID_OPENING).is_err());
}

// ---- the signed standing authorization ---------------------------------------------------

#[derive(Clone)]
struct Signer {
    key_id: String,
    usages: Vec<&'static str>,
}

/// A signature names the key that made it and what it is over.
#[derive(Clone)]
struct Signature {
    by: String,
    over: String,
}

#[derive(Clone)]
struct Signed {
    document: Vec<u8>,
    sidecar: Result<Vec<Signature>, String>,
    keys: Result<Vec<Signer>, String>,
}

fn document(uid: &str, prefix: &str, cluster: &str, issued_days_ago: i64) -> Vec<u8> {
    let issued = chrono::Utc::now() - chrono::Duration::days(issued_days_ago);
    let expires = issued + chrono::Duration::days(30);
    format!(
        "{{\"name\":\"weekly-orders\",\"uid\":\"{uid}\",\"prefix\":\"{prefix}\",\
         \"cluster\":\"{cluster}\",\"expires\":\"{}\"}}",
        expires.to_rfc3339()
    )
    .into_bytes()
}

fn sign(key: &str, document: &[u8]) -> Signature {
    Signature {
        by: key.to_string(),
        over: digest(document),
    }
}

fn signed_with(document: Vec<u8>, usages: Vec<&'static str>) -> Signed {
    Signed {
        sidecar: Ok(vec![sign("approver", &document)]),
        document,
        keys: Ok(vec![Signer {
            key_id: "approver".to_string(),
            usages,
        }]),
    }
}

fn signed_authorization() -> Signed {
    signed_with(
        document("uid-1", "rehearsal-3f2a91c7-", "TARGET00000000000000000", 1),
        vec!["GovernedApproval"],
    )
}

fn allowed(ids: &[&str]) -> AllowedClusters {
    AllowedClusters {
        allowed_cluster_ids: ids.iter().map(|s| (*s).to_string()).collect(),
        source_cluster_id: None,
    }
}

fn names() -> AuthorizationNames {
    AuthorizationNames {
        invalid: AUTHORIZATION_INVALID.to_string(),
        usage_mismatch: "KeyUsageMismatch".to_string(),
        governed_approval: "GovernedApproval".to_string(),
    }
}

fn verify_standing_authorization_full(
    signed: &Signed,
    uid: Option<&str>,
) -> Result<VerifiedStandingAuthorization, DrillError> {
    let plan = plan_with(None);
    let clusters = allowed(&["TARGET00000000000000000"]);
    let mut reads = StandingReads {
        keyring: None,
        sidecar: None,
        trials: Vec::new(),
        document: None,
        admitted: None,
        scope: None,
    };
    let mut parsed = serde_json::Value::Null;
    loop {
        let text = |v: &serde_json::Value, key: &str| v[key].as_str().unwrap_or("").to_string();
        match verify_standing_authorization(&names(), &reads) {
            Step::Done(r) => return r,
            Step::Ask(StandingQuestion::ParseKeyring) => {
                reads.keyring = Some(signed.keys.clone().map(|keys| {
                    keys.iter()
                        .map(|k| AuthorizationKey {
                            key_id: k.key_id.clone(),
                            usages: k.usages.iter().map(|u| u.to_string()).collect(),
                            may_authorize: k.usages.contains(&"GovernedApproval"),
                        })
                        .collect()
                }));
            }
            Step::Ask(StandingQuestion::ParseSidecar) => {
                reads.sidecar = Some(signed.sidecar.clone().map(|_| ()));
            }
            Step::Ask(StandingQuestion::TryKey(i)) => {
                let key = &signed.keys.as_ref().unwrap()[i];
                let signatures = signed.sidecar.as_ref().unwrap();
                reads.trials.push(if signatures.is_empty() {
                    KeyTrial::Malformed("no signature".to_string())
                } else if signatures
                    .iter()
                    .any(|s| s.by == key.key_id && s.over == digest(&signed.document))
                {
                    KeyTrial::Signed
                } else {
                    KeyTrial::NotSigner
                });
            }
            Step::Ask(StandingQuestion::ParseDocument) => {
                let value: Result<serde_json::Value, _> = serde_json::from_slice(&signed.document);
                reads.document = Some(match value {
                    Err(e) => Err(e.to_string()),
                    Ok(v) if v["uid"].is_null() => Err("missing field `uid`".to_string()),
                    Ok(v) => {
                        let doc = StandingAuthorization {
                            schedule_name: text(&v, "name"),
                            schedule_uid: text(&v, "uid"),
                        };
                        parsed = v;
                        Ok(doc)
                    }
                });
            }
            Step::Ask(StandingQuestion::CheckAdmission) => {
                let expires =
                    chrono::DateTime::parse_from_rfc3339(&text(&parsed, "expires")).unwrap();
                reads.admitted = Some(if uid != Some(text(&parsed, "uid").as_str()) {
                    Err(format!("signed for schedule {}", text(&parsed, "uid")))
                } else if expires < chrono::Utc::now() {
                    Err(AUTHORIZATION_EXPIRED.to_string())
                } else {
                    Ok(())
                });
            }
            Step::Ask(StandingQuestion::CheckScope) => {
                let prefix = text(&parsed, "prefix");
                let cluster = text(&parsed, "cluster");
                reads.scope = Some(if prefix != plan.target.topic_mapping_prefix {
                    Err(format!("the scope covers prefix {prefix}"))
                } else if !clusters.allowed_cluster_ids.contains(&cluster) {
                    Err(format!("the scope covers cluster {cluster}"))
                } else {
                    Ok(())
                });
            }
        }
    }
}

fn verify(signed: &Signed, uid: Option<&str>) -> Result<(), DrillError> {
    verify_standing_authorization_full(signed, uid).map(|_| ())
}

#[test]
fn a_validly_signed_authorization_for_this_schedule_and_plan_is_admitted() {
    verify(&signed_authorization(), Some("uid-1"))
        .expect("a signed, current, in-scope authorization is admitted");
    let v = verify_standing_authorization_full(&signed_authorization(), Some("uid-1")).unwrap();
    assert_eq!(v.key_id, "approver");
    assert_eq!(v.document.schedule_name, "weekly-orders");
    assert_eq!(v.document.schedule_uid, "uid-1");
}

#[test]
fn a_document_minted_and_signed_by_a_key_the_bundle_does_not_pin_is_refused() {
    let minted = document("uid-1", "rehearsal-3f2a91c7-", "TARGET00000000000000000", 1);
    let forged = Signed {
        sidecar: Ok(vec![sign("controller", &minted)]),
        document: minted,
        keys: Ok(vec![Signer {
            key_id: "approver".to_string(),
            usages: vec!["GovernedApproval"],
        }]),
    };
    let error = verify(&forged, Some("uid-1")).expect_err("a minted document is refused");
    assert_eq!(error.exit_code(), ExitCode::GuardRefused);
    assert!(error.message().contains(AUTHORIZATION_INVALID), "{error:?}");
    assert!(error.message().contains("does not verify under any"), "{error:?}");
}

#[test]
fn a_tampered_envelope_is_refused() {
    let signed = signed_authorization();
    let tampered = Signed {
        document: String::from_utf8(signed.document.clone())
            .expect("utf-8")
            .replace("rehearsal-3f2a91c7-", "rehearsal-deadbeef-")
            .into_bytes(),
        ..signed
    };
    let error = verify(&tampered, Some("uid-1")).expect_err("a tampered envelope is refused");
    assert_eq!(error.exit_code(), ExitCode::GuardRefused);
    assert!(error.message().contains("does not verify under any"), "{error:?}");
}

#[test]
fn a_signature_under_an_unpinned_key_is_refused() {
    let signed = signed_authorization();
    let swapped = Signed {
        keys: Ok(vec![Signer {
            key_id: "stranger".to_string(),
            usages: vec!["GovernedApproval"],
        }]),
        ..signed
    };
    let error = verify(&swapped, Some("uid-1")).expect_err("an unpinned signer is refused");
    assert_eq!(error.exit_code(), ExitCode::GuardRefused);
    assert!(error.message().contains("trusted public keys"), "{error:?}");
}

#[test]
fn a_signature_under_a_wrong_usage_key_is_refused_by_usage_and_not_by_signature() {
    for usage in ["ConsoleConfirmation", "EvidenceSigning"] {
        let signed = signed_with(
            document("uid-1", "rehearsal-3f2a91c7-", "TARGET00000000000000000", 1),
            vec![usage],
        );
        let error = verify(&signed, Some("uid-1"))
            .expect_err("a usage not bound by the current format is refused");
        assert_eq!(error.exit_code(), ExitCode::GuardRefused);
        let rendered = error.message();
        assert!(rendered.contains("KeyUsageMismatch"), "{rendered}");
        assert!(rendered.contains(usage), "{rendered}");
        assert!(
            !rendered.contains("does not verify"),
            "a genuinely signed document must not be reported as a bad signature: {rendered}"
        );
    }
}

fn signed_by_second_of_two(
    first_usages: Vec<&'static str>,
    signer_usages: Vec<&'static str>,
) -> Signed {
    let document = document("uid-1", "rehearsal-3f2a91c7-", "TARGET00000000000000000", 1);
    Signed {
        sidecar: Ok(vec![sign("signer", &document)]),
        document,
        keys: Ok(vec![
            Signer {
                key_id: "bystander".to_string(),
                usages: first_usages,
            },
            Signer {
                key_id: "signer".to_string(),
                usages: signer_usages,
            },
        ]),
    }
}

#[test]
fn the_usage_judged_is_the_verifying_keys_and_not_the_first_in_the_keyring() {
    let signed = signed_by_second_of_two(vec!["EvidenceSigning"], vec!["GovernedApproval"]);
    verify(&signed, Some("uid-1")).expect(
        "the key that SIGNED carries GovernedApproval; a wrong-usage bystander earlier in \
         the keyring is not what authorises anything",
    );
}

#[test]
fn a_wrong_usage_signer_is_refused_even_when_another_keyring_entry_may_authorize() {
    let signed = signed_by_second_of_two(vec!["GovernedApproval"], vec!["EvidenceSigning"]);
    let error = verify(&signed, Some("uid-1"))
        .expect_err("the key that signed may not authorise, whatever else the keyring holds");
    assert_eq!(error.exit_code(), ExitCode::GuardRefused);
    let rendered = error.message();
    assert!(rendered.contains("KeyUsageMismatch"), "{rendered}");
    assert!(
        rendered.contains("EvidenceSigning"),
        "the refusal names the usages of the key that SIGNED, not another entry's: {rendered}"
    );
    assert!(
        !rendered.contains("does not verify"),
        "the signature is genuine; this is a usage fault: {rendered}"
    );
}

#[test]
fn an_empty_keyring_anchors_in_nothing_and_is_refused() {
    let empty = Signed {
        keys: Ok(vec![]),
        ..signed_authorization()
    };
    let error = verify(&empty, Some("uid-1")).expect_err("an empty keyring is refused");
    assert!(error.message().contains("no trusted public key"), "{error:?}");
}

#[test]
fn a_sidecar_carrying_no_signature_is_operational() {
    let empty = Signed {
        sidecar: Ok(vec![]),
        ..signed_authorization()
    };
    let error = verify(&empty, Some("uid-1")).expect_err("an empty sidecar is refused");
    assert_eq!(error.exit_code(), ExitCode::Operational);
}

#[test]
fn an_expired_authorization_is_refused_by_name() {
    let signed = signed_with(
        // Issued 60 days ago with a 30-day life.
        document("uid-1", "rehearsal-3f2a91c7-", "TARGET00000000000000000", 60),
        vec!["GovernedApproval"],
    );
    let error = verify(&signed, Some("uid-1")).expect_err("an expired authorization is refused");
    assert_eq!(error.exit_code(), ExitCode::GuardRefused);
    assert!(error.message().contains(AUTHORIZATION_EXPIRED), "{error:?}");
}

#[test]
fn an_authorization_signed_for_another_schedule_is_refused() {
    let signed = signed_with(
        document("uid-other", "rehearsal-3f2a91c7-", "TARGET00000000000000000", 1),
        vec!["GovernedApproval"],
    );
    let error = verify(&signed, Some("uid-1")).expect_err("a foreign subject is refused");
    assert_eq!(error.exit_code(), ExitCode::GuardRefused);
    assert!(error.message().contains("uid-other"), "{error:?}");
}

#[test]
fn a_signed_authorization_whose_scope_excludes_the_plan_is_refused() {
    let signed = signed_with(
        document("uid-1", "rehearsal-deadbeef-", "TARGET00000000000000000", 1),
        vec!["GovernedApproval"],
    );
    let error = verify(&signed, Some("uid-1")).expect_err("a plan outside the scope is refused");
    assert_eq!(error.exit_code(), ExitCode::GuardRefused);
    let rendered = error.message();
    assert!(rendered.contains(REHEARSAL_SCOPE_VIOLATION), "{rendered}");
    assert!(rendered.contains("rehearsal-deadbeef-"), "{rendered}");
    assert!(rendered.contains("weekly-orders"), "{rendered}");
}

#[test]
fn a_signed_authorization_naming_another_cluster_is_refused() {
    let signed = signed_with(
        document("uid-1", "rehearsal-3f2a91c7-", "OTHER000000000000000000", 1),
        vec!["GovernedApproval"],
    );
    let error = verify(&signed, Some("uid-1")).expect_err("a foreign target cluster is refused");
    assert!(error.message().contains("OTHER000000000000000000"), "{error:?}");
}

#[test]
fn an_unparseable_keyring_or_sidecar_is_operational_not_a_plan_refusal() {
    let bad_keys = Signed {
        keys: Err("expected ident at line 1 column 2".to_string()),
        ..signed_authorization()
    };
    assert_eq!(
        verify(&bad_keys, Some("uid-1"))
            .expect_err("an unparseable keyring is refused")
            .exit_code(),
        ExitCode::Operational
    );
    let bad_sidecar = Signed {
        sidecar: Err("expected ident at line 1 column 2".to_string()),
        ..signed_authorization()
    };
    assert_eq!(
        verify(&bad_sidecar, Some("uid-1"))
            .expect_err("an unparseable sidecar is refused")
            .exit_code(),
        ExitCode::Operational
    );
}

#[test]
fn signed_bytes_that_are_not_an_authorization_are_a_plan_refusal() {
    let signed = signed_with(
        br#"{"not":"an authorization"}"#.to_vec(),
        vec!["GovernedApproval"],
    );
    let error = verify(&signed, Some("uid-1")).expect_err("non-document bytes are refused");
    assert_eq!(error.exit_code(), ExitCode::GuardRefused);
    assert!(
        error.message().contains("not a standing rehearsal authorization"),
        "{error:?}"
    );
}

#[test]
fn a_key_that_cannot_be_used_is_named_where_none_signed() {
    let reads = StandingReads {
        keyring: Some(Ok(vec![AuthorizationKey {
            key_id: "rsa-1".to_string(),
            usages: vec!["GovernedApproval".to_string()],
            may_authorize: true,
        }])),
        sidecar: Some(Ok(())),
        trials: vec![KeyTrial::Unusable("not a PEM".to_string())],
        document: None,
        admitted: None,
        scope: None,
    };
    match verify_standing_authorization(&names(), &reads) {
        Step::Done(Err(e)) => {
            assert!(e.message().contains("any of the 1 trusted public keys"), "{e:?}");
            assert!(e.message().contains("(unusable: rsa-1 (not a PEM))"), "{e:?}");
        }
        other => panic!("{other:?}"),
    }
}
