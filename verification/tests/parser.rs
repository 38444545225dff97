use a2ltool::creator::definitions::{
    AxisInfo, ByteOrderEnum, ConversionAttribute, ConversionConfig, DataType, Definition,
    FloatValue, GroupAttribute, ItemConfig, SplitType, SymbolDefinition, Unit,
};
use a2ltool::creator::naming::COMMENT_PREFIX;
use a2ltool::creator::parser::parse_definition;
use a2ltool::creator::scanner::CommentScanner;

fn fv(v: &FloatValue) -> f64 {
    match v {
        FloatValue::Decimal(text) => std::str::from_utf8(text).unwrap().parse().unwrap(),
        FloatValue::Hex(x) => *x as f64,
        FloatValue::NegativeHex(x) => -(*x as f64),
    }
}

fn range(r: &Option<(FloatValue, FloatValue)>) -> Option<(f64, f64)> {
    r.as_ref().map(|(a, b)| (fv(a), fv(b)))
}

fn scan(input: &[u8]) -> Vec<(usize, Vec<Vec<u8>>)> {
    let comment_scanner = CommentScanner::new(COMMENT_PREFIX.as_bytes());
    comment_scanner.scan_comments(input)
}

#[test]
fn invalid_item() {
    // "empty" comment - marker only, no definition
    let input = b"//@@";
    let definition_tokens_vec = scan(input);
    assert_eq!(definition_tokens_vec.len(), 0);

    // if parsing fails immediately, then the result is Ok(None)
    let input = b"//@@ FOO";
    let definition_tokens_vec = scan(input);
    assert_eq!(definition_tokens_vec.len(), 1);
    let (_offset, tokens) = &definition_tokens_vec[0];
    let definition = parse_definition(tokens).unwrap();
    assert!(definition.is_none());
}

#[test]
fn parse_measure_symbol() {
    let input = br#"
        /*
        @@ SYMBOL = test_case
        @@ A2L_TYPE = MEASURE
        @@ WRITEABLE
        @@ alt_name
        @@ DATA_TYPE = UBYTE 0x3f [3...40] [0...45]
        @@ CONVERSION = LINEAR 2 3 "kkk" 8 4
        @@ DESCRIPTION = "Test description"
        @@ ALIAS = TestAlias
        @@ BASE_OFFSET = 1
        @@ GROUP = parent | TestGroup
        @@ DIMENSION = 3 4 5 SPLIT USE_TEMPLATE "._%d_[%d]bla%dblub"
        @@ ADDRESS = 0x12345678
        @@ ADDRESS_EXTENSION = 0x10
        @@ EVENT CCP = 0
        @@ COLOR = 0xFF0000
        @@ VAR_CRITERION = variant
        @@ LAYOUT = TestLayout
        @@ BYTE_ORDER = INTEL
        @@ END
        */"#;
    let definition_tokens_vec = scan(input);
    assert_eq!(definition_tokens_vec.len(), 1);

    let (_offset, tokens) = &definition_tokens_vec[0];
    let definition = parse_definition(tokens).unwrap();
    assert!(definition.is_some());
    let definition = definition.unwrap();
    let Definition::Symbol(SymbolDefinition {
        symbol_name,
        a2l_name,
        config: ItemConfig::Measure(measure_cfg),
    }) = definition
    else {
        panic!("Expected SymbolDefinition");
    };
    assert_eq!(symbol_name, "test_case");
    assert_eq!(a2l_name, "alt_name");
    assert_eq!(measure_cfg.attributes.address, Some(0x12345678));
    assert_eq!(measure_cfg.attributes.address_ext, Some(0x10));
    assert_eq!(measure_cfg.attributes.description.as_deref(), Some("Test description"));
    assert_eq!(measure_cfg.datatype, DataType::Ubyte);
    assert_eq!(measure_cfg.attributes.group.len(), 1);
    let GroupAttribute::Std(group_name) = &measure_cfg.attributes.group[0] else {
        panic!("Expected group name");
    };
    assert_eq!(group_name, &vec!["parent", "TestGroup"]);
    assert_eq!(measure_cfg.attributes.base_offset, Some(1));
    assert_eq!(measure_cfg.attributes.layout.as_deref(), Some("TestLayout"));
    assert_eq!(measure_cfg.attributes.var_criterion.as_deref(), Some("variant"));
    assert_eq!(measure_cfg.attributes.dimension, vec![3, 4, 5]);
    let Some(SplitType::Template(template)) = &measure_cfg.attributes.split else {
        panic!("Expected split template");
    };
    assert_eq!(template, "._%d_[%d]bla%dblub");
    let Some(ConversionAttribute::Linear { factor, offset, unit, length, digits }) =
        &measure_cfg.attributes.conversion
    else {
        panic!("Expected linear conversion");
    };
    assert_eq!(fv(factor), 2.0);
    assert_eq!(fv(offset), 3.0);
    assert_eq!(unit, "kkk");
    assert_eq!(*length, Some(8));
    assert_eq!(*digits, Some(4));
    assert_eq!(range(&measure_cfg.range), Some((3.0, 40.0)));
    assert_eq!(measure_cfg.attributes.byte_order, Some(ByteOrderEnum::MsbLast));
}

#[test]
fn parse_parameter_symbol() {
    let input = br#"
        /*
        @@ SYMBOL = param1
        @@ A2L_TYPE = PARAMETER
        @@ WRITEABLE
        @@ DATA_TYPE = FLOAT [0...100] [-10 ... 1000]
        @@ CONVERSION = FORMULA "x*2+3" INVERSE "(x-3)/2" "unit" 8 4
        @@ DESCRIPTION = "Parameter description"
        @@ ALIAS = ParamAlias
        @@ BASE_OFFSET = 2
        @@ GROUP IN = parent | ParamGroup
        @@ DIMENSION = 10 SPLIT USE "_a" "_b" "_c" "_d" "_e" "_f" "_g" "_h" "_i" "_j"
        @@ ADDRESS = 0x87654321
        @@ ADDRESS_EXTENSION = 0x20
        @@ EVENT XCP = FIXED 1
        @@ COLOR = 0x00FF00
        @@ VAR_CRITERION = variant_param
        @@ LAYOUT = ParamLayout
        @@ BYTE_ORDER = MOTOROLA
        @@ END
        */"#;
    let definition_tokens_vec = scan(input);
    assert_eq!(definition_tokens_vec.len(), 1);

    let (_offset, tokens) = &definition_tokens_vec[0];
    let definition = parse_definition(tokens).unwrap();
    assert!(definition.is_some());
    let definition = definition.unwrap();
    let Definition::Symbol(SymbolDefinition {
        symbol_name,
        a2l_name,
        config: ItemConfig::Parameter(param_cfg),
    }) = definition
    else {
        panic!("Expected SymbolDefinition");
    };
    assert_eq!(symbol_name, "param1");
    assert_eq!(a2l_name, "param1");
    assert_eq!(param_cfg.attributes.address, Some(0x87654321));
    assert_eq!(param_cfg.attributes.address_ext, Some(0x20));
    assert_eq!(param_cfg.attributes.description.as_deref(), Some("Parameter description"));
    assert_eq!(param_cfg.datatype, DataType::Float32Ieee);
    assert_eq!(param_cfg.attributes.group.len(), 1);
    let GroupAttribute::In(group_name) = &param_cfg.attributes.group[0] else {
        panic!("Expected group name");
    };
    assert_eq!(group_name, &vec!["parent", "ParamGroup"]);
    assert_eq!(param_cfg.attributes.base_offset, Some(2));
    assert_eq!(param_cfg.attributes.layout.as_deref(), Some("ParamLayout"));
    assert_eq!(param_cfg.attributes.var_criterion.as_deref(), Some("variant_param"));
    assert_eq!(param_cfg.attributes.dimension, vec![10]);
    let Some(SplitType::Manual(split_suffixes)) = &param_cfg.attributes.split else {
        panic!("Expected split template");
    };
    assert_eq!(
        split_suffixes,
        &vec!["_a", "_b", "_c", "_d", "_e", "_f", "_g", "_h", "_i", "_j"]
    );
    let Some(ConversionAttribute::Formula { formula, inverse_formula, unit, length, digits }) =
        &param_cfg.attributes.conversion
    else {
        panic!("Expected formula conversion");
    };
    assert_eq!(formula, "x*2+3");
    assert_eq!(inverse_formula.as_deref(), Some("(x-3)/2"));
    assert_eq!(unit, "unit");
    assert_eq!(length, &Some(8));
    assert_eq!(digits, &Some(4));
    assert_eq!(range(&param_cfg.range), Some((0.0, 100.0)));
    assert_eq!(range(&param_cfg.extended_range), Some((-10.0, 1000.0)));
    assert_eq!(param_cfg.attributes.byte_order, Some(ByteOrderEnum::MsbFirst));
}

#[test]
fn parse_map_symbol() {
    let input = br#"
        /*
        @@ SYMBOL = map1
        @@ A2L_TYPE = MAP
        @@ WRITEABLE
        @@ DATA_TYPE = DOUBLE [0...100] [-10 ... 1000]
        @@ LAYOUT = MapLayout
        @@ CONVERSION = FORMULA "x*2+3" INVERSE "(x-3)/2" "unit" 8 4
        @@ DESCRIPTION = "Map description"
        @@ ALIAS = MapAlias
        @@ BASE_OFFSET = 2
        @@ GROUP OUT = parent | MapGroup
        @@ ADDRESS = 0x87654321
        @@ ADDRESS_EXTENSION = 0x20
        @@ VAR_CRITERION = variant_map
        @@ BYTE_ORDER = MOTOROLA
        @@ X_AXIS = STANDARD
        @@   DATA_TYPE = SBYTE
        @@   DIMENSION = 10
        @@   INPUT = InputSignal
        @@   CONVERSION = TABLE 0 "zero" 1 "one" 2 "two" DEFAULT_VALUE "other" FORMAT 6 1
        @@ Y_AXIS = FIX [0...100] , 0.5
        @@   INPUT = InputSignal2
        @@   UNIT = "unit2" 2
        @@ END
        */"#;
    let definition_tokens_vec = scan(input);
    assert_eq!(definition_tokens_vec.len(), 1);

    let (_offset, tokens) = &definition_tokens_vec[0];
    let definition = parse_definition(tokens).unwrap();
    assert!(definition.is_some());
    let definition = definition.unwrap();
    let Definition::Symbol(SymbolDefinition {
        symbol_name,
        a2l_name,
        config: ItemConfig::CurveMap(map_cfg),
    }) = definition
    else {
        panic!("Expected SymbolDefinition");
    };
    assert_eq!(symbol_name, "map1");
    assert_eq!(a2l_name, "map1");
    assert_eq!(map_cfg.attributes.address, Some(0x87654321));
    assert_eq!(map_cfg.attributes.address_ext, Some(0x20));
    assert_eq!(map_cfg.attributes.description.as_deref(), Some("Map description"));
    assert_eq!(map_cfg.datatype, DataType::Float64Ieee);
    assert_eq!(map_cfg.attributes.group.len(), 1);
    let GroupAttribute::Out(group_name) = &map_cfg.attributes.group[0] else {
        panic!("Expected group name");
    };
    assert_eq!(group_name, &vec!["parent", "MapGroup"]);
    assert_eq!(map_cfg.attributes.base_offset, Some(2));
    assert_eq!(map_cfg.layout, "MapLayout");
    assert_eq!(map_cfg.attributes.var_criterion.as_deref(), Some("variant_map"));
    let Some(ConversionAttribute::Formula { formula, inverse_formula, unit, length, digits }) =
        &map_cfg.attributes.conversion
    else {
        panic!("Expected formula conversion");
    };
    assert_eq!(formula, "x*2+3");
    assert_eq!(inverse_formula.as_deref(), Some("(x-3)/2"));
    assert_eq!(unit, "unit");
    assert_eq!(length, &Some(8));
    assert_eq!(digits, &Some(4));
    assert_eq!(range(&map_cfg.range), Some((0.0, 100.0)));
    assert_eq!(range(&map_cfg.extended_range), Some((-10.0, 1000.0)));
    assert_eq!(map_cfg.attributes.byte_order, Some(ByteOrderEnum::MsbFirst));

    let AxisInfo::Standard {
        datatype,
        range: axis_range,
        extended_range,
        dimension,
        input_signal,
        input_is_instance,
        conversion,
    } = *map_cfg.x_axis
    else {
        panic!("Expected standard axis info");
    };
    assert_eq!(datatype, DataType::Sbyte);
    assert_eq!(range(&axis_range), None);
    assert_eq!(range(&extended_range), None);
    assert_eq!(dimension, vec![10]);
    assert_eq!(input_signal.as_deref(), Some("InputSignal"));
    assert_eq!(input_is_instance, false);
    assert!(matches!(conversion, Some(ConversionAttribute::Table { .. })));
}

#[test]
fn parse_axis_symbol() {
    let input = br#"
        /*
        @@ SYMBOL = x_axis
        @@ A2L_TYPE = AXIS
        @@ READ_ONLY
        @@ x_axis_a2l
        @@ DATA_TYPE = SWORD [0...100] [-10 ... 1000]
        @@ LAYOUT = AxisLayout
        @@ DIMENSION = 3
        @@ INPUT = AxisInput
        @@ CONVERSION = FORMULA "x*2+3" INVERSE "(x-3)/2" "unit" 8 4
        @@ DESCRIPTION = "Axis description"
        @@ ALIAS = AxisAlias
        @@ BASE_OFFSET = 2
        @@ GROUP OUT = parent | AxisGroup
        @@ ADDRESS = 0x87654321
        @@ ADDRESS_EXTENSION = 0x20
        @@ VAR_CRITERION = variant_axis
        @@ BYTE_ORDER = MOTOROLA
        @@ END
        */"#;
    let definition_tokens_vec = scan(input);
    assert_eq!(definition_tokens_vec.len(), 1);

    let (_offset, tokens) = &definition_tokens_vec[0];
    let definition = parse_definition(tokens).unwrap();
    assert!(definition.is_some());
    let definition = definition.unwrap();
    let Definition::Symbol(SymbolDefinition {
        symbol_name,
        a2l_name,
        config: ItemConfig::Axis(axis_cfg),
    }) = definition
    else {
        panic!("Expected SymbolDefinition");
    };
    assert_eq!(symbol_name, "x_axis");
    assert_eq!(a2l_name, "x_axis_a2l");
    assert_eq!(axis_cfg.datatype, DataType::Sword);
    assert_eq!(range(&axis_cfg.range), Some((0.0, 100.0)));
    assert_eq!(range(&axis_cfg.extended_range), Some((-10.0, 1000.0)));
    assert_eq!(axis_cfg.layout, "AxisLayout");
    assert_eq!(axis_cfg.input_signal.as_deref(), Some("AxisInput"));
    assert_eq!(axis_cfg.input_is_instance, false);
    assert_eq!(axis_cfg.dimension, vec![3]);
    assert_eq!(axis_cfg.attributes.address, Some(0x87654321));
    assert_eq!(axis_cfg.attributes.address_ext, Some(0x20));
    assert_eq!(axis_cfg.attributes.description.as_deref(), Some("Axis description"));
    assert_eq!(axis_cfg.attributes.group.len(), 1);
    let GroupAttribute::Out(group_name) = &axis_cfg.attributes.group[0] else {
        panic!("Expected group name");
    };
    assert_eq!(group_name, &vec!["parent", "AxisGroup"]);
    assert_eq!(axis_cfg.attributes.base_offset, Some(2));
    assert_eq!(axis_cfg.attributes.var_criterion.as_deref(), Some("variant_axis"));
    let Some(ConversionAttribute::Formula { formula, inverse_formula, unit, length, digits }) =
        &axis_cfg.attributes.conversion
    else {
        panic!("Expected formula conversion");
    };
    assert_eq!(formula, "x*2+3");
    assert_eq!(inverse_formula.as_deref(), Some("(x-3)/2"));
    assert_eq!(unit, "unit");
    assert_eq!(length, &Some(8));
    assert_eq!(digits, &Some(4));
    assert_eq!(axis_cfg.attributes.byte_order, Some(ByteOrderEnum::MsbFirst));
}

#[test]
fn parse_string() {
    let input = br#"
        /*
        @@ SYMBOL = StringParameter
        @@ A2L_TYPE = STRING 100
        @@ READ_ONLY
        @@ StringParameterA2l
        @@ ADDRESS = 0x12345678
        @@ ADDRESS_EXTENSION = 0x20
        @@ ALIAS = AltName
        @@ BASE_OFFSET = 1
        @@ DESCRIPTION = "String parameter description"
        @@ GROUP = GroupName
        @@ VAR_CRITERION = Variant
        @@ END
        */"#;
    let definition_tokens_vec = scan(input);
    assert_eq!(definition_tokens_vec.len(), 1);

    let (_offset, tokens) = &definition_tokens_vec[0];
    let definition = parse_definition(tokens).unwrap();
    assert!(definition.is_some());
    let definition = definition.unwrap();
    let Definition::Symbol(symbol_def) = definition else {
        panic!("Expected StringDefinition");
    };
    let ItemConfig::String(string_cfg) = &symbol_def.config else {
        panic!("Expected StringDefinition");
    };
    assert_eq!(symbol_def.symbol_name, "StringParameter");
    assert_eq!(symbol_def.a2l_name, "StringParameterA2l");
    assert_eq!(string_cfg.length, 100);
    assert_eq!(
        string_cfg.attributes.description.as_deref(),
        Some("String parameter description")
    );
    assert_eq!(string_cfg.attributes.group.len(), 1);
    assert_eq!(string_cfg.attributes.var_criterion.as_deref(), Some("Variant"));
}

#[test]
fn parse_main_group() {
    let input = br#"
        /*
        @@ MAIN_GROUP = main
        @@ DESCRIPTION = "Main group description"
        @@ END
        */"#;
    let definition_tokens_vec = scan(input);
    assert_eq!(definition_tokens_vec.len(), 1);

    let (_offset, tokens) = &definition_tokens_vec[0];
    let definition = parse_definition(tokens).unwrap();
    assert!(definition.is_some());
    let definition = definition.unwrap();
    let Definition::MainGroup(group_def) = definition else {
        panic!("Expected GroupDefinition");
    };
    assert_eq!(group_def.name, "main");
    assert_eq!(group_def.description.as_deref(), Some("Main group description"));
}

#[test]
fn parse_sub_group() {
    let input = br#"
        /*
        @@ SUB_GROUP = sub
        @@ DESCRIPTION = "Sub group description"
        @@ END
        */"#;
    let definition_tokens_vec = scan(input);
    assert_eq!(definition_tokens_vec.len(), 1);

    let (_offset, tokens) = &definition_tokens_vec[0];
    let definition = parse_definition(tokens).unwrap();
    assert!(definition.is_some());
    let definition = definition.unwrap();
    let Definition::SubGroup(group_def) = definition else {
        panic!("Expected GroupDefinition");
    };
    assert_eq!(group_def.name, "sub");
    assert_eq!(group_def.description.as_deref(), Some("Sub group description"));
}

#[test]
fn parse_linear_conversion() {
    let input = br#"
        /*
        @@ CONVERSION = LinearConversion
        @@ A2L_TYPE = LINEAR 12 3
        @@ UNIT = "unit" 5 2
        @@ DESCRIPTION = "Linear conversion"
        @@ END
        */"#;
    let definition_tokens_vec = scan(input);
    assert_eq!(definition_tokens_vec.len(), 1);

    let (_offset, tokens) = &definition_tokens_vec[0];
    let definition = parse_definition(tokens).unwrap();
    assert!(definition.is_some());
    let definition = definition.unwrap();
    let Definition::Conversion(conversion_def) = definition else {
        panic!("Expected ConversionDefinition");
    };
    assert_eq!(conversion_def.name, "LinearConversion");
    assert_eq!(conversion_def.description.as_deref(), Some("Linear conversion"));
    let Some(Unit { name, length, digits }) = &conversion_def.unit else {
        panic!("Expected unit");
    };
    assert_eq!(name, "unit");
    assert_eq!(*length, 5);
    assert_eq!(*digits, 2);
    let ConversionConfig::Linear(linear_cfg) = &conversion_def.config else {
        panic!("Expected linear conversion");
    };
    assert_eq!(fv(&linear_cfg.factor), 12.0);
    assert_eq!(fv(&linear_cfg.offset), 3.0);
}

#[test]
fn parse_formula_conversion() {
    let input = br#"
        /*
        @@ CONVERSION = FormulaConversion
        @@ A2L_TYPE = FORMULA "x^2+7" INVERSE "sqrt(x-7)"
        @@ END
        */"#;
    let definition_tokens_vec = scan(input);
    assert_eq!(definition_tokens_vec.len(), 1);

    let (_offset, tokens) = &definition_tokens_vec[0];
    let definition = parse_definition(tokens).unwrap();
    assert!(definition.is_some());
    let definition = definition.unwrap();
    let Definition::Conversion(conversion_def) = definition else {
        panic!("Expected ConversionDefinition");
    };
    assert_eq!(conversion_def.name, "FormulaConversion");
    let ConversionConfig::Formula(formula_cfg) = &conversion_def.config else {
        panic!("Expected formula conversion");
    };
    assert_eq!(formula_cfg.formula, "x^2+7");
    assert_eq!(formula_cfg.inverse_formula.as_deref(), Some("sqrt(x-7)"));
}

#[test]
fn parse_table_conversion() {
    let input = br#"
        /*
        @@ CONVERSION = TableConversion
        @@ A2L_TYPE = TABLE
        @@ 0 0 "zero"
        @@ 10 10 "ten"
        @@ 20 20 "twenty"
        @@ DEFAULT_VALUE "unknown"
        @@ END
        */"#;
    let definition_tokens_vec = scan(input);
    assert_eq!(definition_tokens_vec.len(), 1);

    let (_offset, tokens) = &definition_tokens_vec[0];
    let definition = parse_definition(tokens).unwrap();
    assert!(definition.is_some());
    let definition = definition.unwrap();
    let Definition::Conversion(conversion_def) = definition else {
        panic!("Expected ConversionDefinition");
    };
    assert_eq!(conversion_def.name, "TableConversion");
    let ConversionConfig::Table(table_cfg) = &conversion_def.config else {
        panic!("Expected table conversion");
    };
    assert_eq!(table_cfg.rows.len(), 3);
    assert_eq!(fv(&table_cfg.rows[0].value1), 0.0);
    assert_eq!(table_cfg.rows[0].value2.as_ref().map(fv), Some(0.0));
    assert_eq!(table_cfg.rows[0].text, "zero");
    assert_eq!(fv(&table_cfg.rows[1].value1), 10.0);
    assert_eq!(table_cfg.rows[1].value2.as_ref().map(fv), Some(10.0));
    assert_eq!(table_cfg.rows[1].text, "ten");
    assert_eq!(fv(&table_cfg.rows[2].value1), 20.0);
    assert_eq!(table_cfg.rows[2].value2.as_ref().map(fv), Some(20.0));
    assert_eq!(table_cfg.rows[2].text, "twenty");
    assert_eq!(table_cfg.default_value.as_deref(), Some("unknown"));
}

#[test]
fn parse_element() {
    let input = br#"
        /*
        @@ ELEMENT = ElementName
        @@ STRUCTURE = abc | def
        @@ A2L_TYPE = MEASURE
        @@ DATA_TYPE = ULONG
        @@ END
        */"#;
    let definition_tokens_vec = scan(input);
    assert_eq!(definition_tokens_vec.len(), 1);

    let (_offset, tokens) = &definition_tokens_vec[0];
    let definition = parse_definition(tokens).unwrap();
    assert!(definition.is_some());
    let definition = definition.unwrap();
    let Definition::Element(element_def) = definition else {
        panic!("Expected ElementDefinition");
    };
    assert_eq!(element_def.symbol_name, "ElementName");
    assert_eq!(element_def.structure, vec!["abc", "def"]);
    assert!(matches!(element_def.config, ItemConfig::Measure(_)));
}

#[test]
fn parse_sub_structure() {
    let input = br#"
        /*
        @@ SUB_STRUCTURE = SubStruct
        @@ STRUCTURE = abc
        @@ DATA_TYPE = STRUCTURE TypeName
        @@ DIMENSION = 3 SPLIT
        @@ BASE_OFFSET = 333
        @@ SIZE = 64
        @@ END
        */"#;
    let definition_tokens_vec = scan(input);
    assert_eq!(definition_tokens_vec.len(), 1);

    let (_offset, tokens) = &definition_tokens_vec[0];
    let definition = parse_definition(tokens).unwrap();
    assert!(definition.is_some());
    let definition = definition.unwrap();
    let Definition::Element(element_def) = definition else {
        panic!("Expected ElementDefinition");
    };
    let ItemConfig::SubStructure(sub_struct_def) = element_def.config else {
        panic!("Expected SubStructureDefinition");
    };
    assert_eq!(element_def.symbol_name, "SubStruct");
    assert_eq!(element_def.structure, vec!["abc"]);
    assert!(matches!(sub_struct_def.data_type_struct.as_deref(), Some("TypeName")));
    assert_eq!(sub_struct_def.attributes.dimension, vec![3]);
    assert_eq!(sub_struct_def.attributes.base_offset, Some(333));
    assert_eq!(sub_struct_def.attributes.size, Some(64));
}

#[test]
fn parse_instance() {
    let input = br#"
        /*
        @@ INSTANCE = InstanceName
        @@ STRUCTURE = abc
        @@ ADDRESS = 0x1234
        @@ DIMENSION = 3 4 SPLIT
        @@ SIZE = 9000
        @@ GROUP = GroupName
        @@ OVERWRITE x RANGE = [ -1 ... 1 ]
        @@ OVERWRITE y CONVERSION = LINEAR 2 3 "s"
        @@ END
        */"#;
    let definition_tokens_vec = scan(input);
    assert_eq!(definition_tokens_vec.len(), 1);

    let (_offset, tokens) = &definition_tokens_vec[0];
    let definition = parse_definition(tokens).unwrap();
    assert!(definition.is_some());
    let definition = definition.unwrap();
    let Definition::Instance(instance_def) = definition else {
        panic!("Expected InstanceDefinition");
    };
    assert_eq!(instance_def.name, "InstanceName");
    assert_eq!(instance_def.structure_name, "abc");
    assert_eq!(instance_def.address, Some(0x1234));
    assert_eq!(instance_def.dimension, vec![3, 4]);
    assert_eq!(instance_def.size, Some(9000));
    assert_eq!(instance_def.overwrites.len(), 2);
}

#[test]
fn parse_var_criterion() {
    let input = br#"
        /*
        @@ VAR_CRITERION = Variant
        @@ DESCRIPTION = "Variant description"
        @@ SELECTOR = MEASURE InputMeasurement
        @@   VARIANT = Apple 1 0x0
        @@   VARIANT = Orange 2 0x1000
        @@   VARIANT = Banana 3 0x2000
        @@ END
        */"#;
    let definition_tokens_vec = scan(input);
    assert_eq!(definition_tokens_vec.len(), 1);

    let (_offset, tokens) = &definition_tokens_vec[0];
    let definition = parse_definition(tokens).unwrap();
    assert!(definition.is_some());
    let definition = definition.unwrap();
    let Definition::VarCriterion(var_criterion_def) = definition else {
        panic!("Expected VarCriterionDefinition");
    };
    assert_eq!(var_criterion_def.name, "Variant");
    assert_eq!(var_criterion_def.description.as_deref(), Some("Variant description"));
    assert_eq!(var_criterion_def.selector, "InputMeasurement");
    assert_eq!(var_criterion_def.variants.len(), 3);
    assert_eq!(var_criterion_def.variants[0].name, "Apple");
    assert_eq!(var_criterion_def.variants[1].name, "Orange");
    assert_eq!(var_criterion_def.variants[2].name, "Banana");
}

#[test]
fn empty_definition_is_an_error() {
    let tokens: Vec<Vec<u8>> = vec![];
    assert!(parse_definition(&tokens).is_err());
}

#[test]
fn scanned_tokens_are_never_empty() {
    let input = b"// @@ A = [0...1.0],5 \"s t\" x=y\n";
    let definitions = scan(input);
    assert_eq!(definitions.len(), 1);
    let tokens = &definitions[0].1;
    assert!(tokens.iter().all(|t| !t.is_empty()));
    assert_eq!(tokens[0], b"A");
    assert_eq!(tokens[3], b"0...1.0");
    assert_eq!(tokens[4], b"]");
    assert_eq!(tokens[5], b",");
    assert_eq!(tokens[6], b"5");
    assert_eq!(tokens[7], b"\"s t\"");
}

fn parse_error(text: &str) -> String {
    let tokens: Vec<Vec<u8>> = text.split(' ').map(|t| t.as_bytes().to_vec()).collect();
    parse_definition(&tokens).unwrap_err()
}

#[test]
fn parse_error_messages_name_what_was_expected() {
    let empty: Vec<Vec<u8>> = vec![];
    assert_eq!(parse_definition(&empty).unwrap_err(), "Unexpected end of input in Definition");
    assert_eq!(parse_error("SYMBOL"), "Unexpected end of input in SYMBOL");
    assert_eq!(parse_error("SYMBOL x"), "Expected = in SYMBOL, got x");
    assert_eq!(parse_error("SYMBOL = 123"), "Expected identifier in SYMBOL definition");
    assert_eq!(
        parse_error("SYMBOL = sym A2L_TYPE = FOO"),
        "Expected A2L_TYPE after SYMBOL keyword, found: \"FOO\""
    );
    assert_eq!(
        parse_error("SYMBOL = sym A2L_TYPE = MEASURE DATA_TYPE = WORD"),
        "Unknown DATA_TYPE: \"WORD\""
    );
    assert_eq!(
        parse_error("SYMBOL = sym A2L_TYPE = MEASURE DATA_TYPE = ULONG BYTE_ORDER = PDP"),
        "unknown byte order PDP"
    );
    assert_eq!(
        parse_error("SYMBOL = sym A2L_TYPE = MEASURE DATA_TYPE = ULONG ADDRESS = -0x10"),
        "Expected unsigned value in ADDRESS, found negative hex: -0x10"
    );
    assert_eq!(
        parse_error("SYMBOL = sym A2L_TYPE = MEASURE DATA_TYPE = ULONG ADDRESS = ten"),
        "Expected value in ADDRESS, got ten"
    );
    assert_eq!(
        parse_error("SYMBOL = sym A2L_TYPE = MEASURE DATA_TYPE = ULONG [ x ... 1 ]"),
        "Expected float value in RANGE start, got x"
    );
    assert_eq!(
        parse_error("CONVERSION = conv A2L_TYPE = CURVE"),
        "Expected A2L_TYPE after CONVERSION keyword, found: \"CURVE\""
    );
    assert_eq!(parse_error("MAIN_GROUP = grp DESCRIPTION = text"), "Expected quoted string in MAIN_GROUP definition");
}

#[test]
fn parse_error_for_value_that_is_no_utf8() {
    let tokens: Vec<Vec<u8>> = vec![
        b"SYMBOL".to_vec(),
        b"=".to_vec(),
        b"sym".to_vec(),
        b"A2L_TYPE".to_vec(),
        b"=".to_vec(),
        b"MEASURE".to_vec(),
        b"DATA_TYPE".to_vec(),
        b"=".to_vec(),
        b"ULONG".to_vec(),
        b"ADDRESS".to_vec(),
        b"=".to_vec(),
        vec![0x31, 0xff],
    ];
    assert_eq!(parse_definition(&tokens).unwrap_err(), "Expected value in ADDRESS, found invalid UTF-8");
}
