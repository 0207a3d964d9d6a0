use twin::output::OutputFormat;
use twin::output::OutputFormatter;

#[test]
fn test_output_format_from_str() {
    assert!(matches!(OutputFormat::from_str("table"), Ok(OutputFormat::Table)));
    assert!(matches!(OutputFormat::from_str("json"), Ok(OutputFormat::Json)));
    assert!(matches!(OutputFormat::from_str("simple"), Ok(OutputFormat::Simple)));
    assert!(OutputFormat::from_str("invalid").is_err());
}

#[test]
fn test_output_format_from_str_case_insensitive() {
    assert!(matches!(OutputFormat::from_str("TABLE"), Ok(OutputFormat::Table)));
    assert!(matches!(OutputFormat::from_str("Json"), Ok(OutputFormat::Json)));
    assert!(matches!(OutputFormat::from_str("SIMPLE"), Ok(OutputFormat::Simple)));
}

#[test]
fn test_output_formatter_new() {
    let formatter = OutputFormatter::new("table");
    assert!(matches!(formatter.format, OutputFormat::Table));

    let formatter_invalid = OutputFormatter::new("invalid");
    assert!(matches!(formatter_invalid.format, OutputFormat::Table));
}
