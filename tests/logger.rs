use der6y::logger::CliLogger;
use log::Level;

#[test]
fn cli_logger_keeps_its_level_and_writer() {
    let logger = CliLogger::new(Level::Debug, Vec::<u8>::new());
    assert_eq!(logger.level(), Level::Debug);
    assert!(logger.writer().lock().unwrap().is_empty());
    let quiet = CliLogger::new(Level::Error, Vec::<u8>::new());
    assert_eq!(quiet.level(), Level::Error);
}
