use http_server_lib::server::arguments::{
    get_arguments, get_cmd_line_args, parse_config, merge_options, ServerOpts, CommandLineArguments, ArgumentError,
};

fn strings(v: &[&str]) -> Vec<String> {
    v.iter().map(|s| s.to_string()).collect()
}

#[test]
fn command_line_keys_in_any_case() {
    let a = match get_arguments(&strings(&["prog", "PORT=8080", "hostname=localhost", "Threads=4", "config=a=b"])) {
        Ok(a) => a,
        Err(_) => panic!("valid arguments"),
    };
    assert_eq!(a.port, Some(8080));
    assert_eq!(a.hostname, Some(String::from("localhost")));
    assert_eq!(a.threads, Some(4));
    assert_eq!(a.config, Some(String::from("a=b")));
}

#[test]
fn command_line_refusals() {
    assert!(matches!(get_cmd_line_args(&strings(&["prog"])), Err(ArgumentError::UnknownArgument(s)) if s == "prog"));
    assert!(matches!(get_arguments(&strings(&["port=abc"])), Err(ArgumentError::InvalidNumber(k, v)) if k == "port" && v == "abc"));
    assert!(matches!(get_arguments(&strings(&["port=70000"])), Err(ArgumentError::InvalidNumber(_, _))));
    assert!(matches!(get_arguments(&strings(&["Mode=x"])), Err(ArgumentError::UnknownArgument(s)) if s == "mode"));
    assert!(matches!(get_arguments(&strings(&["port=+1", "port=2"])), Ok(CommandLineArguments { port: Some(2), .. })));
}

#[test]
fn configuration_lines() {
    let o = parse_config("port = 80\nhostname= example.com \nthreads=x\nfoo=1\nport=81");
    assert_eq!(o.port, Some(81));
    assert_eq!(o.hostname, Some(String::from("example.com")));
    assert_eq!(o.threads, None);
    let o = parse_config("hostname=a=b\n\nthreads = 8\n");
    assert_eq!(o.hostname, Some(String::from("a")));
    assert_eq!(o.threads, Some(8));
    let o = parse_config("");
    assert!(o.port.is_none() && o.hostname.is_none() && o.threads.is_none());
}

#[test]
fn command_line_wins_over_the_file() {
    let args = CommandLineArguments { port: None, hostname: Some(String::from("h")), threads: None, config: None };
    let file = ServerOpts::new(String::from("f"), 80, 2);
    let o = merge_options(args, Some(file));
    assert_eq!(o.port, Some(80));
    assert_eq!(o.hostname, Some(String::from("h")));
    assert_eq!(o.threads, Some(2));
    let args = CommandLineArguments { port: Some(1), hostname: None, threads: None, config: None };
    let o = merge_options(args, None);
    assert_eq!(o.port, Some(1));
    assert!(o.hostname.is_none());
}

#[test]
fn option_builders() {
    assert_eq!(ServerOpts::port(9).port, Some(9));
    assert_eq!(ServerOpts::threads(3).threads, Some(3));
    assert_eq!(ServerOpts::hostname(String::from("x")).hostname, Some(String::from("x")));
    let n = ServerOpts::none();
    assert!(n.port.is_none() && n.hostname.is_none() && n.threads.is_none());
}
