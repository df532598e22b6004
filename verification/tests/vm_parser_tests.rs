use vm_translator::vm_parser::CommandType;

#[test]
fn should_translate_push_command_into_asm() {
    let output_string: String;
    let (command, segment, index) = (&Some(CommandType::C_push), Some("static"), Some(7));

    if let &Some(CommandType::C_push) = command {
        let pust_to_stack = format!("@SP\nA=M\nM=D\n@SP\nM=M+1");
        match segment {
            Some("constant") => {
                output_string = format!("@{}\nD=A\n{}", index.unwrap(), pust_to_stack);
            }
            Some("local") => {
                output_string = format!(
                    "@{}\nD=A\n@LCL\nA=M+D\nM=A\nD=M\n{}",
                    index.unwrap(),
                    pust_to_stack
                );
            }
            Some("argument") => {
                output_string = format!(
                    "@{}\nD=A\n@ARG\nA=M+D\nM=A\nD=M\n{}",
                    index.unwrap(),
                    pust_to_stack
                );
            }
            Some("this") => {
                output_string = format!(
                    "@{}\nD=A\n@THIS\nA=M+D\nM=A\nD=M\n{}",
                    index.unwrap(),
                    pust_to_stack
                );
            }
            Some("that") => {
                output_string = format!(
                    "@{}\nD=A\n@THAT\nA=M+D\nM=A\nD=M\n{}",
                    index.unwrap(),
                    pust_to_stack
                );
            }
            Some("pointer") => {
                if index.unwrap() == 0 {
                    output_string = format!("@THIS\nA=M+D\nM=A\nD=M\n{}", pust_to_stack);
                } else {
                    output_string = format!("@THAT\nA=M+D\nM=A\nD=M\n{}", pust_to_stack);
                }
            }
            Some("temp") => {
                output_string = format!(
                    "@{}\nD=A\n@TEMP\nA=M+D\nM=A\nD=M\n{}",
                    index.unwrap(),
                    pust_to_stack
                );
            }
            Some("static") => {
                output_string = format!("Foo.{}\n{}", index.unwrap(), pust_to_stack);
            }
            _ => output_string = format!("ERROR"),
        }
    } else {
        output_string = format!("None");
    }

    assert_eq!(
        output_string,
        "Foo.7\n@SP\nA=M\nM=D\n@SP\nM=M+1".to_string()
    );
}

#[test]
fn should_create_a_vm_translator() {
    #[derive(Debug, PartialEq, Eq)]
    struct VMTranslator {
        input_file: String,
        output_file: String,
    }

    impl VMTranslator {
        fn new(input_file: &str) -> Self {
            let input: String;
            let output: String;

            if input_file.contains("/") {
                let path: Vec<&str> = input_file.split("/").collect();
                input = format!("{}.vm", &input_file);
                output = format!("data/{}.asm", path[1]);
            } else {
                input = format!("data/{}.vm", &input_file);
                output = format!("data/{}.asm", &input_file);
            }

            Self { input_file: input, output_file: output }
        }
    }

    let input_file = "data/BasicTest";
    let translator = VMTranslator::new(input_file);

    let translator_test = VMTranslator {
        input_file: "data/BasicTest.vm".to_string(),
        output_file: "data/BasicTest.asm".to_string(),
    };

    assert_eq!(translator, translator_test);
}
