use nimbus_reports::odata::{build_odata_url, normalize_odata_base, odata_handle_response};

fn normalized(base: &str) -> String {
    normalize_odata_base(base).into_iter().collect()
}

#[test]
fn base_url_conventions_normalize_to_one_query_root() {
    assert_eq!(normalized("https://h/CoreApi/OData"), "https://h/CoreApi/OData");
    assert_eq!(normalized("https://h/CoreApi/OData/"), "https://h/CoreApi/OData");
    assert_eq!(normalized("https://h/ODataApi"), "https://h/CoreApi/OData");
    assert_eq!(normalized("https://h/ODataApi/"), "https://h/CoreApi/OData");
    assert_eq!(normalized("https://h/odata"), "https://h/odata");
    assert_eq!(normalized("https://h/odata/"), "https://h/odata");
    assert_eq!(normalized("https://h"), "https://h/CoreApi/OData");
    assert_eq!(normalized("https://h/"), "https://h/CoreApi/OData");
}

#[test]
fn entity_is_appended_as_path_segment() {
    let url = build_odata_url("https://h", "Incidents", None, None, None, None, None, None, None);
    assert_eq!(url, "https://h/CoreApi/OData/Incidents");
}

#[test]
fn top_and_count_assemble_in_fixed_order() {
    let url = build_odata_url(
        "https://h",
        "Incidents",
        Some(10),
        None,
        None,
        None,
        None,
        None,
        Some(true),
    );
    assert_eq!(url, "https://h/CoreApi/OData/Incidents?$top=10&$count=true");
}

#[test]
fn all_parameters_keep_their_order() {
    let url = build_odata_url(
        "https://h/ODataApi/",
        "Requests",
        Some(5),
        Some(20),
        Some(String::from("Status eq 'Open'")),
        Some(String::from("Id,Title")),
        Some(String::from("Owner")),
        Some(String::from("Id desc")),
        Some(true),
    );
    assert_eq!(
        url,
        "https://h/CoreApi/OData/Requests?$top=5&$skip=20&$filter=Status eq 'Open'&$select=Id,Title&$expand=Owner&$orderby=Id desc&$count=true"
    );
}

#[test]
fn empty_optional_parameters_are_omitted() {
    let url = build_odata_url(
        "https://h",
        "Incidents",
        None,
        None,
        Some(String::new()),
        Some(String::new()),
        None,
        None,
        Some(false),
    );
    assert_eq!(url, "https://h/CoreApi/OData/Incidents");
}

#[test]
fn filter_is_passed_through_verbatim() {
    let url = build_odata_url(
        "https://h",
        "Incidents",
        None,
        None,
        Some(String::from("contains(Title,'a&b')")),
        None,
        None,
        None,
        None,
    );
    assert_eq!(url, "https://h/CoreApi/OData/Incidents?$filter=contains(Title,'a&b')");
}

#[test]
fn non_success_status_is_an_error_with_status_and_body() {
    let err = odata_handle_response(404, "missing").unwrap_err();
    assert_eq!(err, "OData query failed with status 404: missing");
}

#[test]
fn success_body_is_parsed_as_json() {
    let value = odata_handle_response(200, "{\"value\":[1,2,3]}").unwrap();
    assert_eq!(value["value"][0], serde_json::Value::from(1));
}

#[test]
fn success_with_malformed_body_is_a_parse_error() {
    let err = odata_handle_response(200, "not json").unwrap_err();
    assert!(err.starts_with("Failed to parse OData response as JSON:"), "{err}");
}
