use ohpdf::cli::{
    dispatch, parse_compress_args, parse_decrypt_args, parse_encrypt_args, parse_info_args,
    parse_merge_args, parse_split_args, parse_to_images_args, parse_watermark_args, take_flag_value,
    CliError, Command, Dispatch,
};

fn args(v: &[&str]) -> Vec<String> {
    v.iter().map(|s| s.to_string()).collect()
}

#[test]
fn flag_value_is_taken_out() {
    let (v, rest) = take_flag_value(&args(&["a.pdf", "-o", "out.pdf", "b.pdf"]), &["-o", "--output"]);
    assert_eq!(v, Some("out.pdf".to_string()));
    assert_eq!(rest, args(&["a.pdf", "b.pdf"]));
}

#[test]
fn last_flag_wins_and_trailing_flag_stays() {
    let (v, rest) = take_flag_value(
        &args(&["-o", "x.pdf", "a.pdf", "--output", "y.pdf", "-o"]),
        &["-o", "--output"],
    );
    assert_eq!(v, Some("y.pdf".to_string()));
    assert_eq!(rest, args(&["a.pdf", "-o"]));
}

#[test]
fn no_flag_keeps_everything() {
    let (v, rest) = take_flag_value(&args(&["a", "b"]), &["-o"]);
    assert_eq!(v, None);
    assert_eq!(rest, args(&["a", "b"]));
}

#[test]
fn dispatch_commands() {
    assert_eq!(dispatch(&args(&["ohpdf-cli"])), Dispatch::Help);
    assert_eq!(dispatch(&args(&["ohpdf-cli", "merge", "a"])), Dispatch::Run(Command::Merge));
    assert_eq!(dispatch(&args(&["ohpdf-cli", "to-images"])), Dispatch::Run(Command::ToImages));
    assert_eq!(dispatch(&args(&["ohpdf-cli", "info"])), Dispatch::Run(Command::Info));
    assert_eq!(dispatch(&args(&["ohpdf-cli", "--help"])), Dispatch::Help);
    assert_eq!(dispatch(&args(&["ohpdf-cli", "-v"])), Dispatch::Version);
    assert_eq!(
        dispatch(&args(&["ohpdf-cli", "frobnicate"])),
        Dispatch::Unknown("frobnicate".to_string())
    );
}

#[test]
fn encrypt_arguments() {
    let a = parse_encrypt_args(&args(&["in.pdf", "-o", "out.pdf", "--password", "pw"])).unwrap();
    assert_eq!((a.input.as_str(), a.output.as_str(), a.password.as_str()), ("in.pdf", "out.pdf", "pw"));
    assert_eq!(
        parse_encrypt_args(&args(&["in.pdf", "-o", "out.pdf"])).err(),
        Some(CliError::MissingPassword)
    );
    assert_eq!(
        parse_encrypt_args(&args(&["-o", "out.pdf"])).err(),
        Some(CliError::Usage(Command::Encrypt))
    );
    assert_eq!(
        parse_encrypt_args(&args(&["in.pdf", "--password", "pw", "-o"])).err(),
        Some(CliError::MissingOutput)
    );
    assert_eq!(
        parse_encrypt_args(&args(&["in.pdf", "--force"])).err(),
        Some(CliError::UnknownOption("--force".to_string()))
    );
    assert_eq!(
        parse_decrypt_args(&args(&["x"])).err(),
        Some(CliError::MissingOutput)
    );
}

#[test]
fn split_arguments() {
    let a = parse_split_args(&args(&["in.pdf", "--start", "2", "--end", "+5", "-o", "o.pdf"])).unwrap();
    assert_eq!((a.start, a.end), (2, 5));
    assert_eq!(a.input, "in.pdf");
    assert_eq!(a.output, "o.pdf");
    assert_eq!(
        parse_split_args(&args(&["in.pdf", "--start", "x", "--end", "5", "-o", "o.pdf"])).err(),
        Some(CliError::MissingStart)
    );
    assert_eq!(
        parse_split_args(&args(&["in.pdf", "--start", "1", "-o", "o.pdf"])).err(),
        Some(CliError::MissingEnd)
    );
}

#[test]
fn to_images_arguments() {
    let a = parse_to_images_args(&args(&["in.pdf"])).unwrap();
    assert_eq!((a.dpi, a.output_dir), (150, None));
    let b = parse_to_images_args(&args(&["in.pdf", "--dpi", "300", "-o", "imgs"])).unwrap();
    assert_eq!((b.dpi, b.output_dir), (300, Some("imgs".to_string())));
    let c = parse_to_images_args(&args(&["in.pdf", "--dpi", "high"])).unwrap();
    assert_eq!(c.dpi, 150);
    assert_eq!(
        parse_to_images_args(&args(&[])).err(),
        Some(CliError::Usage(Command::ToImages))
    );
}

#[test]
fn watermark_arguments() {
    let a = parse_watermark_args(&args(&["in.pdf", "-o", "o.pdf"])).unwrap();
    assert_eq!(a.text, "WATERMARK");
    assert_eq!((a.font_size, a.opacity), (None, None));
    let b = parse_watermark_args(&args(&[
        "in.pdf", "-o", "o.pdf", "--text", "DRAFT", "--font-size", "40", "--opacity", "0.3",
    ]))
    .unwrap();
    assert_eq!(b.text, "DRAFT");
    assert_eq!(b.font_size.as_deref(), Some("40"));
    assert_eq!(b.opacity.as_deref(), Some("0.3"));
}

#[test]
fn compress_and_info_arguments() {
    let a = parse_compress_args(&args(&["in.pdf", "--output", "o.pdf"])).unwrap();
    assert_eq!((a.input.as_str(), a.output.as_str()), ("in.pdf", "o.pdf"));
    assert_eq!(parse_info_args(&args(&["a.pdf", "b"])).unwrap(), "a.pdf");
    assert_eq!(parse_info_args(&args(&[])).err(), Some(CliError::Usage(Command::Info)));
}

#[test]
fn merge_arguments() {
    let a = parse_merge_args(&args(&["a.pdf", "b.pdf", "-o", "m.pdf"])).unwrap();
    assert_eq!(a.inputs, args(&["a.pdf", "b.pdf"]));
    assert_eq!(a.output, "m.pdf");
    assert_eq!(parse_merge_args(&args(&[])).err(), Some(CliError::Usage(Command::Merge)));
    assert_eq!(parse_merge_args(&args(&["-o", "m.pdf"])).err(), Some(CliError::NoInputs));
    assert_eq!(parse_merge_args(&args(&["a.pdf", "b.pdf"])).err(), Some(CliError::MissingOutput));
}

#[test]
fn argument_error_messages() {
    assert_eq!(CliError::MissingOutput.message(), "Missing -o/--output <path>");
    assert_eq!(CliError::MissingPassword.message(), "Missing --password <pw>");
    assert_eq!(CliError::MissingStart.message(), "Missing --start <page>");
    assert_eq!(CliError::MissingEnd.message(), "Missing --end <page>");
    assert_eq!(CliError::NoInputs.message(), "No input PDFs given.");
    assert_eq!(
        CliError::UnknownOption("--x".to_string()).message(),
        "Unknown option: --x"
    );
    assert_eq!(
        CliError::Usage(Command::Info).message(),
        "Usage: ohpdf-cli info <in.pdf>"
    );
    assert_eq!(
        CliError::Usage(Command::Watermark).message(),
        "Usage: ohpdf-cli watermark <in.pdf> -o <out.pdf> --text \"DRAFT\""
    );
}
