use cliutils::cutr::{parse_chars, Args as CutArgs, Config as CutConfig, Extract};
use cliutils::fortuner::Args as FortuneArgs;
use cliutils::grepr::Args as GrepArgs;

#[test]
fn cut_args_carry_one_mode() {
    let chars = parse_chars("1-3").unwrap();
    let args = CutArgs {
        files: vec!["-".to_string()],
        delimiter: b'\t',
        bytes: None,
        chars: Some(chars),
        fields: None,
        output_delimiter: None,
        output_file: None,
    };
    let extract = args.bytes.or(args.chars).or(args.fields).unwrap();
    let config = CutConfig {
        files: args.files,
        delimiter: args.delimiter,
        extract,
        output_delimiter: args.output_delimiter.unwrap_or(args.delimiter),
        output_file: args.output_file,
    };
    assert!(matches!(config.extract, Extract::Chars(_)));
    assert_eq!(config.output_delimiter, b'\t');
}

#[test]
fn grep_args_hold_plain_values() {
    let args = GrepArgs {
        pattern: "fox".to_string(),
        files: vec!["-".to_string()],
        recursive: false,
        count: true,
        invert_match: false,
        insensitive: true,
    };
    assert!(args.count && args.insensitive);
    assert_eq!(args.pattern, "fox");
}

#[test]
fn fortune_args_hold_plain_values() {
    let args = FortuneArgs {
        sources: vec!["quotes".to_string()],
        pattern: None,
        insensitive: false,
        seed: Some(1),
    };
    assert_eq!(args.seed, Some(1));
    assert_eq!(args.sources.len(), 1);
}
