use buzzer::metadata::{ALWAYS_FITS, NEVER_FITS};
use buzzer::telemetry::{
    collect_headers, collect_metadata, get_otlp_params, header_name, with_address, OtlpError,
};

fn environment(vars: &[(&str, &str)]) -> Vec<(String, String)> {
    vars.iter()
        .map(|(name, value)| (name.to_string(), value.to_string()))
        .collect()
}

#[test]
fn header_names_come_from_variables() {
    assert_eq!(
        header_name("OTLP_TONIC_X_HONEYCOMB_TEAM"),
        Some("x-honeycomb-team".to_string())
    );
    assert_eq!(
        header_name("OTLP_TONIC_ENDPOINT"),
        Some("endpoint".to_string())
    );
    assert_eq!(header_name("OTLP_TONIC_"), Some("".to_string()));
    assert_eq!(header_name("OTLP_TONIC_aÄ_9"), Some("aÄ-9".to_string()));
    assert_eq!(header_name("OTLP_TONIC"), None);
    assert_eq!(header_name("otlp_tonic_x"), None);
    assert_eq!(header_name("X_OTLP_TONIC_X"), None);
    assert_eq!(header_name(""), None);
}

#[test]
fn header_names_match_the_standard_library() {
    let name = "Some_NAME__with-Ünicode_AZaz09[]@`{";
    assert_eq!(
        header_name(&format!("OTLP_TONIC_{}", name)),
        Some(name.replace('_', "-").to_ascii_lowercase())
    );
}

#[test]
fn headers_are_collected_in_order() {
    let vars = environment(&[
        ("PATH", "/bin"),
        ("OTLP_TONIC_B", "2"),
        ("OTLP_TONIC_ENDPOINT", "http://localhost:4317"),
        ("OTLP_TONIC_A_C", "1"),
    ]);
    assert_eq!(
        collect_headers(&vars),
        environment(&[("b", "2"), ("a-c", "1")])
    );
}

#[test]
fn metadata_holds_each_header_under_its_last_value() {
    let vars = environment(&[
        ("OTLP_TONIC_TEAM", "one"),
        ("HOME", "/root"),
        ("OTLP_TONIC_team", "two"),
        ("OTLP_TONIC_X_KEY", "SECRET value"),
        ("OTLP_TONIC_ENDPOINT", "ignored"),
    ]);
    let map = collect_metadata(&vars).unwrap();
    assert_eq!(map.len(), 2);
    assert_eq!(map.get("team").unwrap(), "two");
    assert_eq!(map.get("x-key").unwrap(), "SECRET value");
    assert!(map.get("endpoint").is_none());
}

#[test]
fn no_headers_make_no_metadata() {
    let map = collect_metadata(&environment(&[("PATH", "/bin")])).unwrap();
    assert!(map.is_empty());
}

#[test]
fn names_are_checked_character_by_character() {
    for byte in 0u8..128 {
        let c = byte as char;
        let vars = vec![(format!("OTLP_TONIC_x{}", c), "v".to_string())];
        let accepted = c.is_ascii_alphanumeric() || "!\"#$%&'*+-.^_`|~".contains(c);
        match collect_metadata(&vars) {
            Ok(map) => {
                assert!(accepted, "{:?}", c);
                let name = header_name(&vars[0].0).unwrap();
                assert_eq!(map.get(name).unwrap(), "v");
            }
            Err(error) => {
                assert!(!accepted, "{:?}", c);
                assert_eq!(error, OtlpError::InvalidHeaderName);
            }
        }
    }
}

#[test]
fn names_that_headers_cannot_have_are_refused() {
    for variable in [
        "OTLP_TONIC_",
        "OTLP_TONIC_A B",
        "OTLP_TONIC_Ä",
        "OTLP_TONIC_TRACE_BIN",
        "OTLP_TONIC__BIN",
        "OTLP_TONIC_A:B",
    ] {
        let vars = environment(&[(variable, "v")]);
        assert_eq!(
            collect_metadata(&vars).err(),
            Some(OtlpError::InvalidHeaderName),
            "{}",
            variable
        );
    }
    assert!(collect_metadata(&environment(&[("OTLP_TONIC_BIN", "v")])).is_ok());
    assert!(collect_metadata(&environment(&[("OTLP_TONIC_A_BINS", "v")])).is_ok());
}

#[test]
fn names_have_a_greatest_length() {
    let long = "a".repeat(65535);
    let vars = vec![(format!("OTLP_TONIC_{}", long), "v".to_string())];
    let map = collect_metadata(&vars).unwrap();
    assert_eq!(map.len(), 1);
    let vars = vec![(format!("OTLP_TONIC_{}a", long), "v".to_string())];
    assert_eq!(
        collect_metadata(&vars).err(),
        Some(OtlpError::InvalidHeaderName)
    );
}

#[test]
fn values_are_checked_character_by_character() {
    for code in 0u32..0x300 {
        let c = char::from_u32(code).unwrap();
        let vars = vec![("OTLP_TONIC_X".to_string(), format!("a{}b", c))];
        let accepted = c == '\t' || (code >= 32 && code != 127);
        match collect_metadata(&vars) {
            Ok(map) => {
                assert!(accepted, "{:?}", c);
                assert_eq!(map.get("x").unwrap().as_bytes(), vars[0].1.as_bytes());
            }
            Err(error) => {
                assert!(!accepted, "{:?}", c);
                assert_eq!(error, OtlpError::InvalidHeaderValue);
            }
        }
    }
    let vars = environment(&[("OTLP_TONIC_X", "")]);
    assert_eq!(collect_metadata(&vars).unwrap().get("x").unwrap(), "");
}

#[test]
fn the_first_fault_is_reported() {
    let vars = environment(&[
        ("OTLP_TONIC_A", "1"),
        ("OTLP_TONIC_B", "\n"),
        ("OTLP_TONIC_C D", "2"),
    ]);
    assert_eq!(
        collect_metadata(&vars).err(),
        Some(OtlpError::InvalidHeaderValue)
    );
    let vars = environment(&[("OTLP_TONIC_C D", "\n"), ("OTLP_TONIC_B", "\n")]);
    assert_eq!(
        collect_metadata(&vars).err(),
        Some(OtlpError::InvalidHeaderName)
    );
}

fn numbered_headers(count: usize) -> Vec<(String, String)> {
    (0..count)
        .map(|n| (format!("OTLP_TONIC_H{}", n), n.to_string()))
        .collect()
}

#[test]
fn few_headers_are_kept() {
    let mut vars = numbered_headers(ALWAYS_FITS);
    let map = collect_metadata(&vars).unwrap();
    assert_eq!(map.len(), ALWAYS_FITS);
    assert_eq!(map.get("h77").unwrap(), "77");
    vars[1].0 = "OTLP_TONIC_H0".to_string();
    let map = collect_metadata(&vars).unwrap();
    assert_eq!(map.len(), ALWAYS_FITS - 1);
    assert_eq!(map.get("h0").unwrap(), "1");
}

#[test]
fn more_headers_are_kept_where_there_is_room() {
    let map = collect_metadata(&numbered_headers(7000)).unwrap();
    assert_eq!(map.len(), 7000);
    assert_eq!(map.get("h0").unwrap(), "0");
    assert_eq!(map.get("h6999").unwrap(), "6999");
}

#[test]
fn too_many_headers_are_refused() {
    let mut vars = numbered_headers(NEVER_FITS + 1);
    assert_eq!(
        collect_metadata(&vars).err(),
        Some(OtlpError::TooManyHeaders)
    );
    vars.push(("OTLP_TONIC_A B".to_string(), "1".to_string()));
    assert_eq!(
        collect_metadata(&vars).err(),
        Some(OtlpError::TooManyHeaders)
    );
    vars[0].1 = "\n".to_string();
    assert_eq!(
        collect_metadata(&vars).err(),
        Some(OtlpError::InvalidHeaderValue)
    );
}

#[test]
fn the_endpoint_is_an_address() {
    let vars = environment(&[
        ("OTLP_TONIC_TEAM", "blue"),
        ("OTLP_TONIC_ENDPOINT", "HTTPS://API.example.com:443"),
    ]);
    let (address, map) = get_otlp_params(&vars).unwrap();
    assert_eq!(address, "https://api.example.com/");
    assert_eq!(map.len(), 1);
    assert_eq!(map.get("team").unwrap(), "blue");
}

#[test]
fn an_endpoint_is_needed() {
    let vars = environment(&[("OTLP_TONIC_TEAM", "blue"), ("ENDPOINT", "http://a/")]);
    assert_eq!(
        get_otlp_params(&vars).err(),
        Some(OtlpError::MissingEndpoint)
    );
    let vars = environment(&[("OTLP_TONIC_ENDPOINT", "not a url")]);
    assert_eq!(
        get_otlp_params(&vars).err(),
        Some(OtlpError::InvalidEndpoint)
    );
    let vars = environment(&[
        ("OTLP_TONIC_ENDPOINT", "http://a/"),
        ("OTLP_TONIC_ENDPOINT", "http://b/"),
    ]);
    assert_eq!(get_otlp_params(&vars).unwrap().0, "http://a/");
}

#[test]
fn an_address_goes_with_the_metadata() {
    let vars = environment(&[("OTLP_TONIC_TEAM", "blue")]);
    let (address, map) = with_address(Some("http://a/".to_string()), &vars).unwrap();
    assert_eq!(address, "http://a/");
    assert_eq!(map.get("team").unwrap(), "blue");
    assert_eq!(
        with_address(None, &vars).err(),
        Some(OtlpError::InvalidEndpoint)
    );
    let vars = environment(&[("OTLP_TONIC_TEAM", "\u{0}")]);
    assert_eq!(
        with_address(Some("http://a/".to_string()), &vars).err(),
        Some(OtlpError::InvalidHeaderValue)
    );
    assert_eq!(
        with_address(None, &vars).err(),
        Some(OtlpError::InvalidEndpoint)
    );
}
