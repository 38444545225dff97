//! The data model of creator definitions, with a mathematical model of each
//! type (its deep view) that the parser's contracts speak of.

use vstd::prelude::*;

verus! {

/// A numeric value written in a definition where the format allows a
/// floating-point number: a decimal literal (kept as its text, in the syntax
/// that `f64::from_str` accepts) or a hexadecimal integer with optional sign.
#[derive(Debug, Clone)]
pub enum FloatValue {
    Decimal(Vec<u8>),
    Hex(u64),
    NegativeHex(u64),
}

/// The model of a [`FloatValue`].
pub enum SpecFloatValue {
    Decimal(Seq<u8>),
    Hex(u64),
    NegativeHex(u64),
}

impl DeepView for FloatValue {
    type V = SpecFloatValue;

    open spec fn deep_view(&self) -> SpecFloatValue {
        match self {
            FloatValue::Decimal(t) => SpecFloatValue::Decimal(t@),
            FloatValue::Hex(v) => SpecFloatValue::Hex(*v),
            FloatValue::NegativeHex(v) => SpecFloatValue::NegativeHex(*v),
        }
    }
}

/// The data type of an item in the A2L file.
#[derive(Debug, Clone, Copy, PartialEq, Eq, Structural)]
pub enum DataType {
    Ubyte,
    Sbyte,
    Uword,
    Sword,
    Ulong,
    Slong,
    AUint64,
    AInt64,
    Float16Ieee,
    Float32Ieee,
    Float64Ieee,
}

impl DeepView for DataType {
    type V = DataType;

    open spec fn deep_view(&self) -> DataType {
        *self
    }
}

/// The byte order of an item in the A2L file.
#[derive(Debug, Clone, Copy, PartialEq, Eq, Structural)]
pub enum ByteOrderEnum {
    LittleEndian,
    BigEndian,
    MsbLast,
    MsbFirst,
    MsbFirstMswLast,
    MsbLastMswFirst,
}

impl DeepView for ByteOrderEnum {
    type V = ByteOrderEnum;

    open spec fn deep_view(&self) -> ByteOrderEnum {
        *self
    }
}

/// Whether the selector of a variant criterion is a measurement or a parameter.
#[derive(Debug, Clone, Copy, PartialEq, Eq, Structural)]
pub enum SelectorType {
    Measure,
    Parameter,
}

impl DeepView for SelectorType {
    type V = SelectorType;

    open spec fn deep_view(&self) -> SelectorType {
        *self
    }
}

/// A unit definition of a conversion: name, display length and digits.
#[derive(Debug, Clone)]
pub struct Unit {
    pub name: String,
    pub length: u64,
    pub digits: u64,
}

/// The model of a [`Unit`].
pub struct SpecUnit {
    pub name: Seq<char>,
    pub length: u64,
    pub digits: u64,
}

impl DeepView for Unit {
    type V = SpecUnit;

    open spec fn deep_view(&self) -> SpecUnit {
        SpecUnit {
            name: self.name.deep_view(),
            length: self.length.deep_view(),
            digits: self.digits.deep_view(),
        }
    }
}

/// How a multi-dimensional item is split into single items.
#[derive(Debug, Clone)]
pub enum SplitType {
    Auto,
    Manual(Vec<String>),
    Template(String),
}

/// The model of a [`SplitType`].
pub enum SpecSplitType {
    Auto,
    Manual(Seq<Seq<char>>),
    Template(Seq<char>),
}

impl DeepView for SplitType {
    type V = SpecSplitType;

    open spec fn deep_view(&self) -> SpecSplitType {
        match self {
            SplitType::Auto => SpecSplitType::Auto,
            SplitType::Manual(x0) => SpecSplitType::Manual(x0.deep_view()),
            SplitType::Template(x0) => SpecSplitType::Template(x0.deep_view()),
        }
    }
}

/// A measurement event (parsed, not used when items are created).
#[derive(Debug, Clone)]
pub enum EventType {
    Ccp(u32),
    XcpFixed(u32),
    XcpVariable(Vec<u32>),
    XcpDefault(u32),
}

/// The model of a [`EventType`].
pub enum SpecEventType {
    Ccp(u32),
    XcpFixed(u32),
    XcpVariable(Seq<u32>),
    XcpDefault(u32),
}

impl DeepView for EventType {
    type V = SpecEventType;

    open spec fn deep_view(&self) -> SpecEventType {
        match self {
            EventType::Ccp(x0) => SpecEventType::Ccp(x0.deep_view()),
            EventType::XcpFixed(x0) => SpecEventType::XcpFixed(x0.deep_view()),
            EventType::XcpVariable(x0) => SpecEventType::XcpVariable(x0.deep_view()),
            EventType::XcpDefault(x0) => SpecEventType::XcpDefault(x0.deep_view()),
        }
    }
}

/// A group assignment of an item.
#[derive(Debug, Clone)]
pub enum GroupAttribute {
    In(Vec<String>),
    Out(Vec<String>),
    Def(Vec<String>),
    Std(Vec<String>),
}

/// The model of a [`GroupAttribute`].
pub enum SpecGroupAttribute {
    In(Seq<Seq<char>>),
    Out(Seq<Seq<char>>),
    Def(Seq<Seq<char>>),
    Std(Seq<Seq<char>>),
}

impl DeepView for GroupAttribute {
    type V = SpecGroupAttribute;

    open spec fn deep_view(&self) -> SpecGroupAttribute {
        match self {
            GroupAttribute::In(x0) => SpecGroupAttribute::In(x0.deep_view()),
            GroupAttribute::Out(x0) => SpecGroupAttribute::Out(x0.deep_view()),
            GroupAttribute::Def(x0) => SpecGroupAttribute::Def(x0.deep_view()),
            GroupAttribute::Std(x0) => SpecGroupAttribute::Std(x0.deep_view()),
        }
    }
}

/// One row of a value table: a value or a value range, and its text.
#[derive(Debug, Clone)]
pub struct TableRow {
    pub value1: FloatValue,
    pub value2: Option<FloatValue>,
    pub text: String,
}

/// The model of a [`TableRow`].
pub struct SpecTableRow {
    pub value1: SpecFloatValue,
    pub value2: Option<SpecFloatValue>,
    pub text: Seq<char>,
}

impl DeepView for TableRow {
    type V = SpecTableRow;

    open spec fn deep_view(&self) -> SpecTableRow {
        SpecTableRow {
            value1: self.value1.deep_view(),
            value2: self.value2.deep_view(),
            text: self.text.deep_view(),
        }
    }
}

/// The conversion of an item: inline, a reference to a named conversion, or a unit.
#[derive(Debug, Clone)]
pub enum ConversionAttribute {
    Linear {
        factor: FloatValue,
        offset: FloatValue,
        unit: String,
        length: Option<u64>,
        digits: Option<u64>,
    },
    Formula {
        formula: String,
        inverse_formula: Option<String>,
        unit: String,
        length: Option<u64>,
        digits: Option<u64>,
    },
    Table {
        rows: Vec<TableRow>,
        default_value: Option<String>,
        format_values: Option<(u64, u64)>,
    },
    Reference {
        name: String,
        length: Option<u64>,
        digits: Option<u64>,
    },
    Unit {
        name: String,
        length: Option<u64>,
        digits: Option<u64>,
    },
}

/// The model of a [`ConversionAttribute`].
pub enum SpecConversionAttribute {
    Linear {
        factor: SpecFloatValue,
        offset: SpecFloatValue,
        unit: Seq<char>,
        length: Option<u64>,
        digits: Option<u64>,
    },
    Formula {
        formula: Seq<char>,
        inverse_formula: Option<Seq<char>>,
        unit: Seq<char>,
        length: Option<u64>,
        digits: Option<u64>,
    },
    Table {
        rows: Seq<SpecTableRow>,
        default_value: Option<Seq<char>>,
        format_values: Option<(u64, u64)>,
    },
    Reference {
        name: Seq<char>,
        length: Option<u64>,
        digits: Option<u64>,
    },
    Unit {
        name: Seq<char>,
        length: Option<u64>,
        digits: Option<u64>,
    },
}

impl DeepView for ConversionAttribute {
    type V = SpecConversionAttribute;

    open spec fn deep_view(&self) -> SpecConversionAttribute {
        match self {
            ConversionAttribute::Linear { factor, offset, unit, length, digits } => SpecConversionAttribute::Linear {
                factor: factor.deep_view(),
                offset: offset.deep_view(),
                unit: unit.deep_view(),
                length: length.deep_view(),
                digits: digits.deep_view(),
            },
            ConversionAttribute::Formula { formula, inverse_formula, unit, length, digits } => SpecConversionAttribute::Formula {
                formula: formula.deep_view(),
                inverse_formula: inverse_formula.deep_view(),
                unit: unit.deep_view(),
                length: length.deep_view(),
                digits: digits.deep_view(),
            },
            ConversionAttribute::Table { rows, default_value, format_values } => SpecConversionAttribute::Table {
                rows: rows.deep_view(),
                default_value: default_value.deep_view(),
                format_values: format_values.deep_view(),
            },
            ConversionAttribute::Reference { name, length, digits } => SpecConversionAttribute::Reference {
                name: name.deep_view(),
                length: length.deep_view(),
                digits: digits.deep_view(),
            },
            ConversionAttribute::Unit { name, length, digits } => SpecConversionAttribute::Unit {
                name: name.deep_view(),
                length: length.deep_view(),
                digits: digits.deep_view(),
            },
        }
    }
}

/// The description of an axis of a curve or map.
#[derive(Debug, Clone)]
pub enum AxisInfo {
    Standard {
        datatype: DataType,
        range: Option<(FloatValue, FloatValue)>,
        extended_range: Option<(FloatValue, FloatValue)>,
        dimension: Vec<u32>,
        input_signal: Option<String>,
        input_is_instance: bool,
        conversion: Option<ConversionAttribute>,
    },
    FixList {
        axis_points: Vec<FloatValue>,
        input_signal: Option<String>,
        input_is_instance: bool,
        conversion: Option<ConversionAttribute>,
    },
    FixRange {
        range_min: FloatValue,
        range_max: FloatValue,
        range_step: Option<FloatValue>,
        input_signal: Option<String>,
        input_is_instance: bool,
        conversion: Option<ConversionAttribute>,
    },
    Common {
        ref_name: String,
        is_instance: bool,
    },
}

/// The model of a [`AxisInfo`].
pub enum SpecAxisInfo {
    Standard {
        datatype: DataType,
        range: Option<(SpecFloatValue, SpecFloatValue)>,
        extended_range: Option<(SpecFloatValue, SpecFloatValue)>,
        dimension: Seq<u32>,
        input_signal: Option<Seq<char>>,
        input_is_instance: bool,
        conversion: Option<SpecConversionAttribute>,
    },
    FixList {
        axis_points: Seq<SpecFloatValue>,
        input_signal: Option<Seq<char>>,
        input_is_instance: bool,
        conversion: Option<SpecConversionAttribute>,
    },
    FixRange {
        range_min: SpecFloatValue,
        range_max: SpecFloatValue,
        range_step: Option<SpecFloatValue>,
        input_signal: Option<Seq<char>>,
        input_is_instance: bool,
        conversion: Option<SpecConversionAttribute>,
    },
    Common {
        ref_name: Seq<char>,
        is_instance: bool,
    },
}

impl DeepView for AxisInfo {
    type V = SpecAxisInfo;

    open spec fn deep_view(&self) -> SpecAxisInfo {
        match self {
            AxisInfo::Standard { datatype, range, extended_range, dimension, input_signal, input_is_instance, conversion } => SpecAxisInfo::Standard {
                datatype: datatype.deep_view(),
                range: range.deep_view(),
                extended_range: extended_range.deep_view(),
                dimension: dimension.deep_view(),
                input_signal: input_signal.deep_view(),
                input_is_instance: input_is_instance.deep_view(),
                conversion: conversion.deep_view(),
            },
            AxisInfo::FixList { axis_points, input_signal, input_is_instance, conversion } => SpecAxisInfo::FixList {
                axis_points: axis_points.deep_view(),
                input_signal: input_signal.deep_view(),
                input_is_instance: input_is_instance.deep_view(),
                conversion: conversion.deep_view(),
            },
            AxisInfo::FixRange { range_min, range_max, range_step, input_signal, input_is_instance, conversion } => SpecAxisInfo::FixRange {
                range_min: range_min.deep_view(),
                range_max: range_max.deep_view(),
                range_step: range_step.deep_view(),
                input_signal: input_signal.deep_view(),
                input_is_instance: input_is_instance.deep_view(),
                conversion: conversion.deep_view(),
            },
            AxisInfo::Common { ref_name, is_instance } => SpecAxisInfo::Common {
                ref_name: ref_name.deep_view(),
                is_instance: is_instance.deep_view(),
            },
        }
    }
}

/// The attributes of a measurement or parameter.
#[derive(Debug, Clone)]
pub struct Attributes {
    pub address: Option<u32>,
    pub address_ext: Option<u32>,
    pub alias: Option<String>,
    pub base_offset: Option<u32>,
    pub byte_order: Option<ByteOrderEnum>,
    pub color: Option<u32>,
    pub conversion: Option<ConversionAttribute>,
    pub description: Option<String>,
    pub dimension: Vec<u32>,
    pub event: Option<EventType>,
    pub group: Vec<GroupAttribute>,
    pub layout: Option<String>,
    pub split: Option<SplitType>,
    pub var_criterion: Option<String>,
}

/// The model of a [`Attributes`].
pub struct SpecAttributes {
    pub address: Option<u32>,
    pub address_ext: Option<u32>,
    pub alias: Option<Seq<char>>,
    pub base_offset: Option<u32>,
    pub byte_order: Option<ByteOrderEnum>,
    pub color: Option<u32>,
    pub conversion: Option<SpecConversionAttribute>,
    pub description: Option<Seq<char>>,
    pub dimension: Seq<u32>,
    pub event: Option<SpecEventType>,
    pub group: Seq<SpecGroupAttribute>,
    pub layout: Option<Seq<char>>,
    pub split: Option<SpecSplitType>,
    pub var_criterion: Option<Seq<char>>,
}

impl DeepView for Attributes {
    type V = SpecAttributes;

    open spec fn deep_view(&self) -> SpecAttributes {
        SpecAttributes {
            address: self.address.deep_view(),
            address_ext: self.address_ext.deep_view(),
            alias: self.alias.deep_view(),
            base_offset: self.base_offset.deep_view(),
            byte_order: self.byte_order.deep_view(),
            color: self.color.deep_view(),
            conversion: self.conversion.deep_view(),
            description: self.description.deep_view(),
            dimension: self.dimension.deep_view(),
            event: self.event.deep_view(),
            group: self.group.deep_view(),
            layout: self.layout.deep_view(),
            split: self.split.deep_view(),
            var_criterion: self.var_criterion.deep_view(),
        }
    }
}

/// The attributes of a string item.
#[derive(Debug, Clone)]
pub struct StringAttributes {
    pub address: Option<u32>,
    pub address_ext: Option<u32>,
    pub alias: Option<String>,
    pub base_offset: Option<u32>,
    pub description: Option<String>,
    pub dimension: Vec<u32>,
    pub group: Vec<GroupAttribute>,
    pub split: Option<SplitType>,
    pub var_criterion: Option<String>,
}

/// The model of a [`StringAttributes`].
pub struct SpecStringAttributes {
    pub address: Option<u32>,
    pub address_ext: Option<u32>,
    pub alias: Option<Seq<char>>,
    pub base_offset: Option<u32>,
    pub description: Option<Seq<char>>,
    pub dimension: Seq<u32>,
    pub group: Seq<SpecGroupAttribute>,
    pub split: Option<SpecSplitType>,
    pub var_criterion: Option<Seq<char>>,
}

impl DeepView for StringAttributes {
    type V = SpecStringAttributes;

    open spec fn deep_view(&self) -> SpecStringAttributes {
        SpecStringAttributes {
            address: self.address.deep_view(),
            address_ext: self.address_ext.deep_view(),
            alias: self.alias.deep_view(),
            base_offset: self.base_offset.deep_view(),
            description: self.description.deep_view(),
            dimension: self.dimension.deep_view(),
            group: self.group.deep_view(),
            split: self.split.deep_view(),
            var_criterion: self.var_criterion.deep_view(),
        }
    }
}

/// The attributes of a curve, map or axis.
#[derive(Debug, Clone)]
pub struct MapAttributes {
    pub address: Option<u32>,
    pub address_ext: Option<u32>,
    pub alias: Option<String>,
    pub base_offset: Option<u32>,
    pub byte_order: Option<ByteOrderEnum>,
    pub conversion: Option<ConversionAttribute>,
    pub description: Option<String>,
    pub group: Vec<GroupAttribute>,
    pub var_criterion: Option<String>,
}

/// The model of a [`MapAttributes`].
pub struct SpecMapAttributes {
    pub address: Option<u32>,
    pub address_ext: Option<u32>,
    pub alias: Option<Seq<char>>,
    pub base_offset: Option<u32>,
    pub byte_order: Option<ByteOrderEnum>,
    pub conversion: Option<SpecConversionAttribute>,
    pub description: Option<Seq<char>>,
    pub group: Seq<SpecGroupAttribute>,
    pub var_criterion: Option<Seq<char>>,
}

impl DeepView for MapAttributes {
    type V = SpecMapAttributes;

    open spec fn deep_view(&self) -> SpecMapAttributes {
        SpecMapAttributes {
            address: self.address.deep_view(),
            address_ext: self.address_ext.deep_view(),
            alias: self.alias.deep_view(),
            base_offset: self.base_offset.deep_view(),
            byte_order: self.byte_order.deep_view(),
            conversion: self.conversion.deep_view(),
            description: self.description.deep_view(),
            group: self.group.deep_view(),
            var_criterion: self.var_criterion.deep_view(),
        }
    }
}

/// The attributes of a sub-structure element.
#[derive(Debug, Clone)]
pub struct StructAttributes {
    pub dimension: Vec<u32>,
    pub base_offset: Option<u32>,
    pub size: Option<u32>,
    pub split: Option<SplitType>,
}

/// The model of a [`StructAttributes`].
pub struct SpecStructAttributes {
    pub dimension: Seq<u32>,
    pub base_offset: Option<u32>,
    pub size: Option<u32>,
    pub split: Option<SpecSplitType>,
}

impl DeepView for StructAttributes {
    type V = SpecStructAttributes;

    open spec fn deep_view(&self) -> SpecStructAttributes {
        SpecStructAttributes {
            dimension: self.dimension.deep_view(),
            base_offset: self.base_offset.deep_view(),
            size: self.size.deep_view(),
            split: self.split.deep_view(),
        }
    }
}

/// The configuration of a measurement.
#[derive(Debug, Clone)]
pub struct MeasureCfg {
    pub write_access: Option<bool>,
    pub datatype: DataType,
    pub bitmask: Option<u64>,
    pub range: Option<(FloatValue, FloatValue)>,
    pub attributes: Attributes,
}

/// The model of a [`MeasureCfg`].
pub struct SpecMeasureCfg {
    pub write_access: Option<bool>,
    pub datatype: DataType,
    pub bitmask: Option<u64>,
    pub range: Option<(SpecFloatValue, SpecFloatValue)>,
    pub attributes: SpecAttributes,
}

impl DeepView for MeasureCfg {
    type V = SpecMeasureCfg;

    open spec fn deep_view(&self) -> SpecMeasureCfg {
        SpecMeasureCfg {
            write_access: self.write_access.deep_view(),
            datatype: self.datatype.deep_view(),
            bitmask: self.bitmask.deep_view(),
            range: self.range.deep_view(),
            attributes: self.attributes.deep_view(),
        }
    }
}

/// The configuration of a parameter.
#[derive(Debug, Clone)]
pub struct ParameterCfg {
    pub write_access: Option<bool>,
    pub datatype: DataType,
    pub bitmask: Option<u64>,
    pub range: Option<(FloatValue, FloatValue)>,
    pub extended_range: Option<(FloatValue, FloatValue)>,
    pub attributes: Attributes,
}

/// The model of a [`ParameterCfg`].
pub struct SpecParameterCfg {
    pub write_access: Option<bool>,
    pub datatype: DataType,
    pub bitmask: Option<u64>,
    pub range: Option<(SpecFloatValue, SpecFloatValue)>,
    pub extended_range: Option<(SpecFloatValue, SpecFloatValue)>,
    pub attributes: SpecAttributes,
}

impl DeepView for ParameterCfg {
    type V = SpecParameterCfg;

    open spec fn deep_view(&self) -> SpecParameterCfg {
        SpecParameterCfg {
            write_access: self.write_access.deep_view(),
            datatype: self.datatype.deep_view(),
            bitmask: self.bitmask.deep_view(),
            range: self.range.deep_view(),
            extended_range: self.extended_range.deep_view(),
            attributes: self.attributes.deep_view(),
        }
    }
}

/// The configuration of a curve or map.
#[derive(Debug, Clone)]
pub struct CurveMapCfg {
    pub write_access: Option<bool>,
    pub datatype: DataType,
    pub bitmask: Option<u64>,
    pub range: Option<(FloatValue, FloatValue)>,
    pub extended_range: Option<(FloatValue, FloatValue)>,
    pub layout: String,
    pub attributes: MapAttributes,
    pub x_axis: Box<AxisInfo>,
    pub y_axis: Option<Box<AxisInfo>>,
}

/// The model of a [`CurveMapCfg`].
pub struct SpecCurveMapCfg {
    pub write_access: Option<bool>,
    pub datatype: DataType,
    pub bitmask: Option<u64>,
    pub range: Option<(SpecFloatValue, SpecFloatValue)>,
    pub extended_range: Option<(SpecFloatValue, SpecFloatValue)>,
    pub layout: Seq<char>,
    pub attributes: SpecMapAttributes,
    pub x_axis: SpecAxisInfo,
    pub y_axis: Option<SpecAxisInfo>,
}

impl DeepView for CurveMapCfg {
    type V = SpecCurveMapCfg;

    open spec fn deep_view(&self) -> SpecCurveMapCfg {
        SpecCurveMapCfg {
            write_access: self.write_access.deep_view(),
            datatype: self.datatype.deep_view(),
            bitmask: self.bitmask.deep_view(),
            range: self.range.deep_view(),
            extended_range: self.extended_range.deep_view(),
            layout: self.layout.deep_view(),
            attributes: self.attributes.deep_view(),
            x_axis: self.x_axis.deep_view(),
            y_axis: self.y_axis.deep_view(),
        }
    }
}

/// The configuration of an axis item.
#[derive(Debug, Clone)]
pub struct AxisCfg {
    pub write_access: Option<bool>,
    pub datatype: DataType,
    pub range: Option<(FloatValue, FloatValue)>,
    pub extended_range: Option<(FloatValue, FloatValue)>,
    pub layout: String,
    pub dimension: Vec<u32>,
    pub input_signal: Option<String>,
    pub input_is_instance: bool,
    pub attributes: MapAttributes,
}

/// The model of a [`AxisCfg`].
pub struct SpecAxisCfg {
    pub write_access: Option<bool>,
    pub datatype: DataType,
    pub range: Option<(SpecFloatValue, SpecFloatValue)>,
    pub extended_range: Option<(SpecFloatValue, SpecFloatValue)>,
    pub layout: Seq<char>,
    pub dimension: Seq<u32>,
    pub input_signal: Option<Seq<char>>,
    pub input_is_instance: bool,
    pub attributes: SpecMapAttributes,
}

impl DeepView for AxisCfg {
    type V = SpecAxisCfg;

    open spec fn deep_view(&self) -> SpecAxisCfg {
        SpecAxisCfg {
            write_access: self.write_access.deep_view(),
            datatype: self.datatype.deep_view(),
            range: self.range.deep_view(),
            extended_range: self.extended_range.deep_view(),
            layout: self.layout.deep_view(),
            dimension: self.dimension.deep_view(),
            input_signal: self.input_signal.deep_view(),
            input_is_instance: self.input_is_instance.deep_view(),
            attributes: self.attributes.deep_view(),
        }
    }
}

/// The configuration of a string item.
#[derive(Debug, Clone)]
pub struct StringCfg {
    pub length: u32,
    pub write_access: Option<bool>,
    pub attributes: StringAttributes,
}

/// The model of a [`StringCfg`].
pub struct SpecStringCfg {
    pub length: u32,
    pub write_access: Option<bool>,
    pub attributes: SpecStringAttributes,
}

impl DeepView for StringCfg {
    type V = SpecStringCfg;

    open spec fn deep_view(&self) -> SpecStringCfg {
        SpecStringCfg {
            length: self.length.deep_view(),
            write_access: self.write_access.deep_view(),
            attributes: self.attributes.deep_view(),
        }
    }
}

/// The configuration of a sub-structure element.
#[derive(Debug, Clone)]
pub struct SubStructureCfg {
    pub data_type_struct: Option<String>,
    pub attributes: StructAttributes,
}

/// The model of a [`SubStructureCfg`].
pub struct SpecSubStructureCfg {
    pub data_type_struct: Option<Seq<char>>,
    pub attributes: SpecStructAttributes,
}

impl DeepView for SubStructureCfg {
    type V = SpecSubStructureCfg;

    open spec fn deep_view(&self) -> SpecSubStructureCfg {
        SpecSubStructureCfg {
            data_type_struct: self.data_type_struct.deep_view(),
            attributes: self.attributes.deep_view(),
        }
    }
}

/// The configuration of an item.
#[derive(Debug, Clone)]
pub enum ItemConfig {
    Measure(MeasureCfg),
    Parameter(ParameterCfg),
    CurveMap(CurveMapCfg),
    Axis(AxisCfg),
    String(StringCfg),
    SubStructure(SubStructureCfg),
}

/// The model of a [`ItemConfig`].
pub enum SpecItemConfig {
    Measure(SpecMeasureCfg),
    Parameter(SpecParameterCfg),
    CurveMap(SpecCurveMapCfg),
    Axis(SpecAxisCfg),
    String(SpecStringCfg),
    SubStructure(SpecSubStructureCfg),
}

impl DeepView for ItemConfig {
    type V = SpecItemConfig;

    open spec fn deep_view(&self) -> SpecItemConfig {
        match self {
            ItemConfig::Measure(x0) => SpecItemConfig::Measure(x0.deep_view()),
            ItemConfig::Parameter(x0) => SpecItemConfig::Parameter(x0.deep_view()),
            ItemConfig::CurveMap(x0) => SpecItemConfig::CurveMap(x0.deep_view()),
            ItemConfig::Axis(x0) => SpecItemConfig::Axis(x0.deep_view()),
            ItemConfig::String(x0) => SpecItemConfig::String(x0.deep_view()),
            ItemConfig::SubStructure(x0) => SpecItemConfig::SubStructure(x0.deep_view()),
        }
    }
}

/// A SYMBOL definition: an item for a global variable.
#[derive(Debug, Clone)]
pub struct SymbolDefinition {
    pub symbol_name: String,
    pub a2l_name: String,
    pub config: ItemConfig,
}

/// The model of a [`SymbolDefinition`].
pub struct SpecSymbolDefinition {
    pub symbol_name: Seq<char>,
    pub a2l_name: Seq<char>,
    pub config: SpecItemConfig,
}

impl DeepView for SymbolDefinition {
    type V = SpecSymbolDefinition;

    open spec fn deep_view(&self) -> SpecSymbolDefinition {
        SpecSymbolDefinition {
            symbol_name: self.symbol_name.deep_view(),
            a2l_name: self.a2l_name.deep_view(),
            config: self.config.deep_view(),
        }
    }
}

/// An ELEMENT or SUB_STRUCTURE definition: an item of a structure.
#[derive(Debug, Clone)]
pub struct ElementDefinition {
    pub symbol_name: String,
    pub a2l_name: String,
    pub structure: Vec<String>,
    pub config: ItemConfig,
}

/// The model of a [`ElementDefinition`].
pub struct SpecElementDefinition {
    pub symbol_name: Seq<char>,
    pub a2l_name: Seq<char>,
    pub structure: Seq<Seq<char>>,
    pub config: SpecItemConfig,
}

impl DeepView for ElementDefinition {
    type V = SpecElementDefinition;

    open spec fn deep_view(&self) -> SpecElementDefinition {
        SpecElementDefinition {
            symbol_name: self.symbol_name.deep_view(),
            a2l_name: self.a2l_name.deep_view(),
            structure: self.structure.deep_view(),
            config: self.config.deep_view(),
        }
    }
}

/// A SUB_GROUP definition.
#[derive(Debug, Clone)]
pub struct SubGroupDefinition {
    pub name: String,
    pub description: Option<String>,
}

/// The model of a [`SubGroupDefinition`].
pub struct SpecSubGroupDefinition {
    pub name: Seq<char>,
    pub description: Option<Seq<char>>,
}

impl DeepView for SubGroupDefinition {
    type V = SpecSubGroupDefinition;

    open spec fn deep_view(&self) -> SpecSubGroupDefinition {
        SpecSubGroupDefinition {
            name: self.name.deep_view(),
            description: self.description.deep_view(),
        }
    }
}

/// A MAIN_GROUP definition.
#[derive(Debug, Clone)]
pub struct MainGroupDefinition {
    pub name: String,
    pub description: Option<String>,
}

/// The model of a [`MainGroupDefinition`].
pub struct SpecMainGroupDefinition {
    pub name: Seq<char>,
    pub description: Option<Seq<char>>,
}

impl DeepView for MainGroupDefinition {
    type V = SpecMainGroupDefinition;

    open spec fn deep_view(&self) -> SpecMainGroupDefinition {
        SpecMainGroupDefinition {
            name: self.name.deep_view(),
            description: self.description.deep_view(),
        }
    }
}

/// A linear conversion: factor and offset.
#[derive(Debug, Clone)]
pub struct LinearCfg {
    pub factor: FloatValue,
    pub offset: FloatValue,
}

/// The model of a [`LinearCfg`].
pub struct SpecLinearCfg {
    pub factor: SpecFloatValue,
    pub offset: SpecFloatValue,
}

impl DeepView for LinearCfg {
    type V = SpecLinearCfg;

    open spec fn deep_view(&self) -> SpecLinearCfg {
        SpecLinearCfg {
            factor: self.factor.deep_view(),
            offset: self.offset.deep_view(),
        }
    }
}

/// A formula conversion.
#[derive(Debug, Clone)]
pub struct FormulaCfg {
    pub formula: String,
    pub inverse_formula: Option<String>,
}

/// The model of a [`FormulaCfg`].
pub struct SpecFormulaCfg {
    pub formula: Seq<char>,
    pub inverse_formula: Option<Seq<char>>,
}

impl DeepView for FormulaCfg {
    type V = SpecFormulaCfg;

    open spec fn deep_view(&self) -> SpecFormulaCfg {
        SpecFormulaCfg {
            formula: self.formula.deep_view(),
            inverse_formula: self.inverse_formula.deep_view(),
        }
    }
}

/// A table conversion.
#[derive(Debug, Clone)]
pub struct TableCfg {
    pub rows: Vec<TableRow>,
    pub default_value: Option<String>,
}

/// The model of a [`TableCfg`].
pub struct SpecTableCfg {
    pub rows: Seq<SpecTableRow>,
    pub default_value: Option<Seq<char>>,
}

impl DeepView for TableCfg {
    type V = SpecTableCfg;

    open spec fn deep_view(&self) -> SpecTableCfg {
        SpecTableCfg {
            rows: self.rows.deep_view(),
            default_value: self.default_value.deep_view(),
        }
    }
}

/// The kind of a named conversion.
#[derive(Debug, Clone)]
pub enum ConversionConfig {
    Linear(LinearCfg),
    Formula(FormulaCfg),
    Table(TableCfg),
}

/// The model of a [`ConversionConfig`].
pub enum SpecConversionConfig {
    Linear(SpecLinearCfg),
    Formula(SpecFormulaCfg),
    Table(SpecTableCfg),
}

impl DeepView for ConversionConfig {
    type V = SpecConversionConfig;

    open spec fn deep_view(&self) -> SpecConversionConfig {
        match self {
            ConversionConfig::Linear(x0) => SpecConversionConfig::Linear(x0.deep_view()),
            ConversionConfig::Formula(x0) => SpecConversionConfig::Formula(x0.deep_view()),
            ConversionConfig::Table(x0) => SpecConversionConfig::Table(x0.deep_view()),
        }
    }
}

/// A CONVERSION definition: a named conversion.
#[derive(Debug, Clone)]
pub struct ConversionDefinition {
    pub name: String,
    pub unit: Option<Unit>,
    pub description: Option<String>,
    pub config: ConversionConfig,
}

/// The model of a [`ConversionDefinition`].
pub struct SpecConversionDefinition {
    pub name: Seq<char>,
    pub unit: Option<SpecUnit>,
    pub description: Option<Seq<char>>,
    pub config: SpecConversionConfig,
}

impl DeepView for ConversionDefinition {
    type V = SpecConversionDefinition;

    open spec fn deep_view(&self) -> SpecConversionDefinition {
        SpecConversionDefinition {
            name: self.name.deep_view(),
            unit: self.unit.deep_view(),
            description: self.description.deep_view(),
            config: self.config.deep_view(),
        }
    }
}

/// What an instance overwrites in one element of its structure.
#[derive(Debug, Clone)]
pub enum OverwriteSpec {
    Conversion(ConversionAttribute),
    Description(String),
    Alias(String),
    Color(u32),
    GroupAssignment(GroupAttribute),
    Range(FloatValue, FloatValue),
}

/// The model of a [`OverwriteSpec`].
pub enum SpecOverwriteSpec {
    Conversion(SpecConversionAttribute),
    Description(Seq<char>),
    Alias(Seq<char>),
    Color(u32),
    GroupAssignment(SpecGroupAttribute),
    Range(SpecFloatValue, SpecFloatValue),
}

impl DeepView for OverwriteSpec {
    type V = SpecOverwriteSpec;

    open spec fn deep_view(&self) -> SpecOverwriteSpec {
        match self {
            OverwriteSpec::Conversion(x0) => SpecOverwriteSpec::Conversion(x0.deep_view()),
            OverwriteSpec::Description(x0) => SpecOverwriteSpec::Description(x0.deep_view()),
            OverwriteSpec::Alias(x0) => SpecOverwriteSpec::Alias(x0.deep_view()),
            OverwriteSpec::Color(x0) => SpecOverwriteSpec::Color(x0.deep_view()),
            OverwriteSpec::GroupAssignment(x0) => SpecOverwriteSpec::GroupAssignment(x0.deep_view()),
            OverwriteSpec::Range(x0, x1) => SpecOverwriteSpec::Range(x0.deep_view(), x1.deep_view()),
        }
    }
}

/// An overwrite of an instance: the element path and what is overwritten.
#[derive(Debug, Clone)]
pub struct Overwrite {
    pub element_path: Vec<String>,
    pub details: OverwriteSpec,
}

/// The model of a [`Overwrite`].
pub struct SpecOverwrite {
    pub element_path: Seq<Seq<char>>,
    pub details: SpecOverwriteSpec,
}

impl DeepView for Overwrite {
    type V = SpecOverwrite;

    open spec fn deep_view(&self) -> SpecOverwrite {
        SpecOverwrite {
            element_path: self.element_path.deep_view(),
            details: self.details.deep_view(),
        }
    }
}

/// An INSTANCE definition: a variable of a defined structure type.
#[derive(Debug, Clone)]
pub struct InstanceDefinition {
    pub name: String,
    pub a2l_name: Option<String>,
    pub structure_name: String,
    pub address: Option<u32>,
    pub dimension: Vec<u32>,
    pub split: Option<SplitType>,
    pub size: Option<u32>,
    pub group: Option<GroupAttribute>,
    pub overwrites: Vec<Overwrite>,
}

/// The model of a [`InstanceDefinition`].
pub struct SpecInstanceDefinition {
    pub name: Seq<char>,
    pub a2l_name: Option<Seq<char>>,
    pub structure_name: Seq<char>,
    pub address: Option<u32>,
    pub dimension: Seq<u32>,
    pub split: Option<SpecSplitType>,
    pub size: Option<u32>,
    pub group: Option<SpecGroupAttribute>,
    pub overwrites: Seq<SpecOverwrite>,
}

impl DeepView for InstanceDefinition {
    type V = SpecInstanceDefinition;

    open spec fn deep_view(&self) -> SpecInstanceDefinition {
        SpecInstanceDefinition {
            name: self.name.deep_view(),
            a2l_name: self.a2l_name.deep_view(),
            structure_name: self.structure_name.deep_view(),
            address: self.address.deep_view(),
            dimension: self.dimension.deep_view(),
            split: self.split.deep_view(),
            size: self.size.deep_view(),
            group: self.group.deep_view(),
            overwrites: self.overwrites.deep_view(),
        }
    }
}

/// One variant of a variant criterion.
#[derive(Debug, Clone)]
pub struct Variant {
    pub name: String,
    pub selector_value: u32,
    pub offset: u32,
}

/// The model of a [`Variant`].
pub struct SpecVariant {
    pub name: Seq<char>,
    pub selector_value: u32,
    pub offset: u32,
}

impl DeepView for Variant {
    type V = SpecVariant;

    open spec fn deep_view(&self) -> SpecVariant {
        SpecVariant {
            name: self.name.deep_view(),
            selector_value: self.selector_value.deep_view(),
            offset: self.offset.deep_view(),
        }
    }
}

/// A VAR_CRITERION definition.
#[derive(Debug, Clone)]
pub struct VarCriterionDefinition {
    pub name: String,
    pub description: Option<String>,
    pub selector_type: SelectorType,
    pub selector: String,
    pub variants: Vec<Variant>,
}

/// The model of a [`VarCriterionDefinition`].
pub struct SpecVarCriterionDefinition {
    pub name: Seq<char>,
    pub description: Option<Seq<char>>,
    pub selector_type: SelectorType,
    pub selector: Seq<char>,
    pub variants: Seq<SpecVariant>,
}

impl DeepView for VarCriterionDefinition {
    type V = SpecVarCriterionDefinition;

    open spec fn deep_view(&self) -> SpecVarCriterionDefinition {
        SpecVarCriterionDefinition {
            name: self.name.deep_view(),
            description: self.description.deep_view(),
            selector_type: self.selector_type.deep_view(),
            selector: self.selector.deep_view(),
            variants: self.variants.deep_view(),
        }
    }
}

/// A creator definition read from a source comment.
#[derive(Debug, Clone)]
pub enum Definition {
    Symbol(SymbolDefinition),
    Element(ElementDefinition),
    SubGroup(SubGroupDefinition),
    MainGroup(MainGroupDefinition),
    Conversion(ConversionDefinition),
    Instance(InstanceDefinition),
    VarCriterion(VarCriterionDefinition),
}

/// The model of a [`Definition`].
pub enum SpecDefinition {
    Symbol(SpecSymbolDefinition),
    Element(SpecElementDefinition),
    SubGroup(SpecSubGroupDefinition),
    MainGroup(SpecMainGroupDefinition),
    Conversion(SpecConversionDefinition),
    Instance(SpecInstanceDefinition),
    VarCriterion(SpecVarCriterionDefinition),
}

impl DeepView for Definition {
    type V = SpecDefinition;

    open spec fn deep_view(&self) -> SpecDefinition {
        match self {
            Definition::Symbol(x0) => SpecDefinition::Symbol(x0.deep_view()),
            Definition::Element(x0) => SpecDefinition::Element(x0.deep_view()),
            Definition::SubGroup(x0) => SpecDefinition::SubGroup(x0.deep_view()),
            Definition::MainGroup(x0) => SpecDefinition::MainGroup(x0.deep_view()),
            Definition::Conversion(x0) => SpecDefinition::Conversion(x0.deep_view()),
            Definition::Instance(x0) => SpecDefinition::Instance(x0.deep_view()),
            Definition::VarCriterion(x0) => SpecDefinition::VarCriterion(x0.deep_view()),
        }
    }
}

} // verus!
