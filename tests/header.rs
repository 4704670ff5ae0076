use xray_lite::{Header, SamplingDecision, SegmentId, TraceId};

#[test]
fn parse_with_parent_from_str() {
    assert_eq!(
        "Root=1-5759e988-bd862e3fe1be46a994272793;Parent=53995c3f42cd8ad8;Sampled=1"
            .parse::<Header>(),
        Ok(Header::new(TraceId::Rendered("1-5759e988-bd862e3fe1be46a994272793".into()))
            .with_parent_id(SegmentId::Rendered("53995c3f42cd8ad8".into()))
            .with_sampling_decision(SamplingDecision::Sampled))
    )
}

#[test]
fn parse_no_parent_from_str() {
    assert_eq!(
        "Root=1-5759e988-bd862e3fe1be46a994272793;Sampled=1".parse::<Header>(),
        Ok(Header::new(TraceId::Rendered("1-5759e988-bd862e3fe1be46a994272793".into()))
            .with_sampling_decision(SamplingDecision::Sampled))
    )
}

#[test]
fn parse_with_additional_data_from_str() {
    let mut expected = Header::new(TraceId::Rendered("1-5759e988-bd862e3fe1be46a994272793".into()))
        .with_parent_id(SegmentId::Rendered("53995c3f42cd8ad8".into()))
        .with_sampling_decision(SamplingDecision::Sampled);
    expected.insert_data("Lineage", "01234567:0").insert_data("Unknown", "unknown");
    assert_eq!(
        "Root=1-5759e988-bd862e3fe1be46a994272793;Parent=53995c3f42cd8ad8;Sampled=1;Lineage=01234567:0;Unknown=unknown"
            .parse::<Header>(),
        Ok(expected)
    )
}

#[test]
fn displays_as_header() {
    let header = Header::new(TraceId::Rendered("1-5759e988-bd862e3fe1be46a994272793".into()));
    assert_eq!(header.to_string(), "Root=1-5759e988-bd862e3fe1be46a994272793");
}

#[test]
fn replace_parent_id() {
    let header = Header::new(TraceId::Rendered("1-5759e988-bd862e3fe1be46a994272793".into()))
        .with_parent_id(SegmentId::Rendered("53995c3f42cd8ad8".into()))
        .with_sampling_decision(SamplingDecision::Sampled);
    assert_eq!(
        header.with_parent_id(SegmentId::Rendered("35b167406b7746cf".into())),
        Header::new(TraceId::Rendered("1-5759e988-bd862e3fe1be46a994272793".into()))
            .with_parent_id(SegmentId::Rendered("35b167406b7746cf".into()))
            .with_sampling_decision(SamplingDecision::Sampled),
    );
}

#[test]
fn replace_sampling_decision() {
    let header = Header::new(TraceId::Rendered("1-5759e988-bd862e3fe1be46a994272793".into()))
        .with_parent_id(SegmentId::Rendered("53995c3f42cd8ad8".into()))
        .with_sampling_decision(SamplingDecision::Sampled);
    assert_eq!(
        header.with_sampling_decision(SamplingDecision::NotSampled),
        Header::new(TraceId::Rendered("1-5759e988-bd862e3fe1be46a994272793".into()))
            .with_parent_id(SegmentId::Rendered("53995c3f42cd8ad8".into()))
            .with_sampling_decision(SamplingDecision::NotSampled),
    );
}

#[test]
fn parse_then_format_with_parent() {
    let header = Header::parse("Root=R;Parent=P;Sampled=1").unwrap();
    assert_eq!(header.trace_id(), &TraceId::Rendered("R".into()));
    assert_eq!(header.parent_id(), &Some(SegmentId::Rendered("P".into())));
    assert_eq!(header.sampling_decision(), SamplingDecision::Sampled);
    assert_eq!(header.to_string(), "Root=R;Parent=P;Sampled=1");
}

#[test]
fn parse_then_format_without_parent() {
    let header = Header::parse("Root=R;Sampled=1").unwrap();
    assert_eq!(header.parent_id(), &None);
    assert_eq!(header.to_string(), "Root=R;Sampled=1");
}

#[test]
fn segment_without_equals_is_rejected_by_name() {
    assert_eq!(
        Header::parse("Root=R;oops;Sampled=1"),
        Err("invalid key=value: no `=` found in `oops`".to_string())
    );
    assert_eq!(
        Header::parse("Root=R;first;second"),
        Err("invalid key=value: no `=` found in `first`".to_string())
    );
    assert_eq!(
        Header::parse("Root=R;"),
        Err("invalid key=value: no `=` found in ``".to_string())
    );
}

#[test]
fn reparse_of_rendering_is_equal() {
    for text in [
        "Root=R;Parent=P;Sampled=1",
        "Sampled=?;Root=abc;k=v=w;Self=x;k2=",
        "Root=;Parent=;Sampled=maybe;a=1;a=2;b=3",
    ] {
        let first = Header::parse(text).unwrap();
        let again = Header::parse(&first.to_string()).unwrap();
        assert_eq!(again, first);
    }
    let header = Header::parse("Sampled=?;Root=abc;k=v=w;Self=x;k2=").unwrap();
    assert_eq!(header.to_string(), "Root=abc;Sampled=?;k=v=w;k2=");
}

#[test]
fn self_segment_is_dropped_and_duplicates_replace() {
    let header = Header::parse("Root=R;Self=1-abc;a=1;b=2;a=3").unwrap();
    assert_eq!(header.to_string(), "Root=R;a=3;b=2");
}

#[test]
fn sampling_tokens() {
    assert_eq!(SamplingDecision::from_token("Sampled=1"), SamplingDecision::Sampled);
    assert_eq!(SamplingDecision::from_token("Sampled=0"), SamplingDecision::NotSampled);
    assert_eq!(SamplingDecision::from_token("Sampled=?"), SamplingDecision::Requested);
    assert_eq!(SamplingDecision::from_token("Sampled=yes"), SamplingDecision::Unknown);
    assert_eq!(SamplingDecision::Requested.as_str(), "Sampled=?");
    assert_eq!(SamplingDecision::Unknown.as_str(), "");
    let header = Header::parse("Root=R;Sampled=0").unwrap();
    assert_eq!(header.sampling_decision(), SamplingDecision::NotSampled);
    assert_eq!(Header::parse("Root=R;Sampled=x").unwrap().to_string(), "Root=R");
}

#[test]
fn additional_data_order_does_not_matter_for_equality() {
    let a = Header::parse("Root=R;x=1;y=2").unwrap();
    let b = Header::parse("Root=R;y=2;x=1").unwrap();
    assert_eq!(a, b);
    let c = Header::parse("Root=R;y=2;x=9").unwrap();
    assert_ne!(a, c);
    let d = Header::parse("Root=R;x=1").unwrap();
    assert_ne!(a, d);
}

#[test]
fn insert_data_replaces_existing_key() {
    let mut header = Header::new(TraceId::Rendered("R".into()));
    header.insert_data("k", "1").insert_data("j", "2").insert_data("k", "3");
    assert_eq!(header.to_string(), "Root=R;k=3;j=2");
}

#[test]
fn unset_ids_render_empty() {
    let header = Header::new(TraceId::Unset).with_parent_id(SegmentId::Unset);
    assert_eq!(header.to_string(), "Root=;Parent=");
    assert_eq!(TraceId::Rendered("t".into()).as_str(), "t");
    assert_eq!(SegmentId::Unset.as_str(), "");
}

#[test]
fn sampling_decision_from_str() {
    assert_eq!(SamplingDecision::from("Sampled=0"), SamplingDecision::NotSampled);
    assert_eq!(SamplingDecision::from("Sampled="), SamplingDecision::Unknown);
    assert_eq!(SamplingDecision::default(), SamplingDecision::Unknown);
    assert_eq!(Header::default(), Header::new(TraceId::Unset));
    assert_eq!(Header::NAME, "X-Amzn-Trace-Id");
}

#[test]
fn from_str_matches_parse() {
    assert_eq!(
        "Root=R;bad".parse::<Header>(),
        Err("invalid key=value: no `=` found in `bad`".to_string())
    );
    assert_eq!("Root=R;Self=x;k=v".parse::<Header>(), Header::parse("Root=R;k=v"));
}
