use crusterfuck::cli::CommandLineArgs;
use crusterfuck::config::err::ConfigErr;
use crusterfuck::config::verbosity::Verbosity;
use crusterfuck::config::verbosity::VerbosityLevel;
use crusterfuck::config::Config;
use crusterfuck::interpreter::ast::Token;
use crusterfuck::interpreter::io::IO;
use crusterfuck::interpreter::stack::Stack;
use crusterfuck::log::Logger;

#[test]
fn io_reads_script_in_order_then_yields_nothing() {
    let mut io = IO::with_input(vec![1, 2]);
    assert_eq!(io.read(), Some(1));
    assert_eq!(io.read(), Some(2));
    assert_eq!(io.read(), None);
    assert_eq!(io.read(), None);
}

#[test]
fn io_records_every_printed_byte() {
    let mut io = IO::new();
    assert_eq!(io.read(), None);
    io.print(7);
    io.print(8);
    assert_eq!(io.output, vec![7, 8]);
    assert_eq!(io.input, Vec::<u8>::new());
}

#[test]
fn stack_pushes_and_pops_in_lifo_order() {
    let mut stack: Stack<u32> = Stack::new();
    assert!(stack.is_empty());
    assert_eq!(stack.length(), 0);
    assert_eq!(stack.pop(), None);
    stack.push(1);
    stack.push(2);
    assert!(!stack.is_empty());
    assert_eq!(stack.length(), 2);
    assert_eq!(stack.peek(), Some(&2));
    assert_eq!(stack.pop(), Some(2));
    assert_eq!(stack.pop(), Some(1));
    assert_eq!(stack.pop(), None);
}

#[test]
fn render_shows_leaf_names() {
    assert_eq!(Token::Inc.render(), "Inc");
    assert_eq!(Token::Dec.render(), "Dec");
    assert_eq!(Token::MoveRight.render(), "MoveRght");
    assert_eq!(Token::MoveLeft.render(), "MoveLeft");
    assert_eq!(Token::Print.render(), "Print");
    assert_eq!(Token::Read.render(), "Read");
}

#[test]
fn render_shows_loops_with_comma_terminated_bodies() {
    let token = Token::Loop(vec![Token::Inc, Token::Loop(vec![Token::Dec]), Token::Print]);
    assert_eq!(token.render(), "Loop[Inc,Loop[Dec,],Print,]");
}

#[test]
fn default_config_is_silent() {
    let config = Config::default();
    assert!(!config.verbosity.enabled);
    assert_eq!(config.verbosity.level, VerbosityLevel::Off);
    let logger = Logger::new_for(&config);
    assert!(!logger.high());
    assert!(!logger.medium());
    assert!(!logger.low());
}

#[test]
fn logger_level_high_emits_only_high() {
    let config = Config {
        verbosity: Verbosity { enabled: false, level: VerbosityLevel::High },
    };
    let logger = Logger::new_for(&config);
    assert!(logger.high());
    assert!(logger.medium());
    assert!(logger.low());
}

#[test]
fn logger_level_medium_holds_back_low_priority() {
    let config = Config {
        verbosity: Verbosity { enabled: false, level: VerbosityLevel::Medium },
    };
    let logger = Logger::new_for(&config);
    assert!(!logger.high());
    assert!(logger.medium());
    assert!(logger.low());
}

#[test]
fn logger_enabled_flag_suppresses_all_messages() {
    let config = Config {
        verbosity: Verbosity { enabled: true, level: VerbosityLevel::High },
    };
    let logger = Logger::new_for(&config);
    assert!(!logger.high());
    assert!(!logger.medium());
    assert!(!logger.low());
}

#[test]
fn config_err_carries_path_and_value() {
    let err = ConfigErr::InvalidConfigValue { path: "a.b".to_string(), value: "x".to_string() };
    match err {
        ConfigErr::InvalidConfigValue { path, value } => {
            assert_eq!(path, "a.b");
            assert_eq!(value, "x");
        }
    }
}

#[test]
fn command_line_args_hold_resolved_paths() {
    let args = CommandLineArgs {
        config: "config.toml".to_string(),
        input: "program.b".to_string(),
        print_program: Some(true),
    };
    assert_eq!(args.config, "config.toml");
    assert_eq!(args.input, "program.b");
    assert_eq!(args.print_program, Some(true));
}
