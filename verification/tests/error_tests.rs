use greplite::ApplicationError;

#[test]
fn test_display_not_enough_arguments() {
    let err = ApplicationError::NotEnoughArguments;
    let result = err.message();
    assert_eq!(
        result,
        "Error: Not enough arguments provided. A query and file paths are required."
    );
}

#[test]
fn test_display_invalid_regex() {
    let err = ApplicationError::InvalidRegex("^[a-z".to_string());
    let result = err.message();
    assert_eq!(result, "Error: Invalid regular expression: '^[a-z'");
}

#[test]
fn test_display_file_not_found() {
    let err = ApplicationError::FileNotFound("file.txt".to_string());
    let result = err.message();
    assert_eq!(result, "Error: File 'file.txt' not found.");
}

#[test]
fn test_display_directory_read_error() {
    let err = ApplicationError::DirectoryReadError("/some/path".to_string());
    let result = err.message();
    assert_eq!(result, "Error reading directory '/some/path'.");
}

#[test]
fn test_display_directory_without_recursive() {
    let err = ApplicationError::DirectoryWithoutRecursive;
    let result = err.message();
    assert_eq!(result, "Error: You provided a directory, but did not use the '-R' option for recursive search.");
}

#[test]
fn test_display_invalid_flag() {
    let err = ApplicationError::InvalidFlag("-f".to_string());
    let result = err.message();
    assert_eq!(result, "Error: Invalid flag '-f'.");
}

#[test]
fn test_display_io_error() {
    let err = ApplicationError::IOError("File not found".to_string());
    let result = err.message();
    assert_eq!(result, "I/O Error: File not found");
}

#[test]
fn test_display_help_requested() {
    let err = ApplicationError::HelpRequested;
    let result = err.message();
    assert_eq!(result, "Help requested.");
}
