use vstd::prelude::*;

use crate::error::AotError;
use crate::native_format::reader::{spec_decode_unsigned, NativeReader};

verus! {

/// The kinds of record that a handle can point to.
#[derive(Clone, Copy, PartialEq, Eq, Debug, Structural)]
pub enum HandleType {
    Null,
    ArraySignature,
    ByReferenceSignature,
    ConstantBooleanArray,
    ConstantBooleanValue,
    ConstantByteArray,
    ConstantByteValue,
    ConstantCharArray,
    ConstantCharValue,
    ConstantDoubleArray,
    ConstantDoubleValue,
    ConstantEnumArray,
    ConstantEnumValue,
    ConstantHandleArray,
    ConstantInt16Array,
    ConstantInt16Value,
    ConstantInt32Array,
    ConstantInt32Value,
    ConstantInt64Array,
    ConstantInt64Value,
    ConstantReferenceValue,
    ConstantSByteArray,
    ConstantSByteValue,
    ConstantSingleArray,
    ConstantSingleValue,
    ConstantStringArray,
    ConstantStringValue,
    ConstantUInt16Array,
    ConstantUInt16Value,
    ConstantUInt32Array,
    ConstantUInt32Value,
    ConstantUInt64Array,
    ConstantUInt64Value,
    CustomAttribute,
    Event,
    Field,
    FieldSignature,
    FunctionPointerSignature,
    GenericParameter,
    MemberReference,
    Method,
    MethodInstantiation,
    MethodSemantics,
    MethodSignature,
    MethodTypeVariableSignature,
    ModifiedType,
    NamedArgument,
    NamespaceDefinition,
    NamespaceReference,
    Parameter,
    PointerSignature,
    Property,
    PropertySignature,
    QualifiedField,
    QualifiedMethod,
    SZArraySignature,
    ScopeDefinition,
    ScopeReference,
    TypeDefinition,
    TypeForwarder,
    TypeInstantiationSignature,
    TypeReference,
    TypeSpecification,
    TypeVariableSignature,
    /// Stands for a kind outside the known set where one has to be shown.
    Invalid,
}

/// The kind that the number `code` stands for.
pub open spec fn spec_handle_type_from_code(code: int) -> Option<HandleType> {
    if code == 0x00 {
        Some(HandleType::Null)
    } else if code == 0x01 {
        Some(HandleType::ArraySignature)
    } else if code == 0x02 {
        Some(HandleType::ByReferenceSignature)
    } else if code == 0x03 {
        Some(HandleType::ConstantBooleanArray)
    } else if code == 0x04 {
        Some(HandleType::ConstantBooleanValue)
    } else if code == 0x05 {
        Some(HandleType::ConstantByteArray)
    } else if code == 0x06 {
        Some(HandleType::ConstantByteValue)
    } else if code == 0x07 {
        Some(HandleType::ConstantCharArray)
    } else if code == 0x08 {
        Some(HandleType::ConstantCharValue)
    } else if code == 0x09 {
        Some(HandleType::ConstantDoubleArray)
    } else if code == 0x0a {
        Some(HandleType::ConstantDoubleValue)
    } else if code == 0x0b {
        Some(HandleType::ConstantEnumArray)
    } else if code == 0x0c {
        Some(HandleType::ConstantEnumValue)
    } else if code == 0x0d {
        Some(HandleType::ConstantHandleArray)
    } else if code == 0x0e {
        Some(HandleType::ConstantInt16Array)
    } else if code == 0x0f {
        Some(HandleType::ConstantInt16Value)
    } else if code == 0x10 {
        Some(HandleType::ConstantInt32Array)
    } else if code == 0x11 {
        Some(HandleType::ConstantInt32Value)
    } else if code == 0x12 {
        Some(HandleType::ConstantInt64Array)
    } else if code == 0x13 {
        Some(HandleType::ConstantInt64Value)
    } else if code == 0x14 {
        Some(HandleType::ConstantReferenceValue)
    } else if code == 0x15 {
        Some(HandleType::ConstantSByteArray)
    } else if code == 0x16 {
        Some(HandleType::ConstantSByteValue)
    } else if code == 0x17 {
        Some(HandleType::ConstantSingleArray)
    } else if code == 0x18 {
        Some(HandleType::ConstantSingleValue)
    } else if code == 0x19 {
        Some(HandleType::ConstantStringArray)
    } else if code == 0x1a {
        Some(HandleType::ConstantStringValue)
    } else if code == 0x1b {
        Some(HandleType::ConstantUInt16Array)
    } else if code == 0x1c {
        Some(HandleType::ConstantUInt16Value)
    } else if code == 0x1d {
        Some(HandleType::ConstantUInt32Array)
    } else if code == 0x1e {
        Some(HandleType::ConstantUInt32Value)
    } else if code == 0x1f {
        Some(HandleType::ConstantUInt64Array)
    } else if code == 0x20 {
        Some(HandleType::ConstantUInt64Value)
    } else if code == 0x21 {
        Some(HandleType::CustomAttribute)
    } else if code == 0x22 {
        Some(HandleType::Event)
    } else if code == 0x23 {
        Some(HandleType::Field)
    } else if code == 0x24 {
        Some(HandleType::FieldSignature)
    } else if code == 0x25 {
        Some(HandleType::FunctionPointerSignature)
    } else if code == 0x26 {
        Some(HandleType::GenericParameter)
    } else if code == 0x27 {
        Some(HandleType::MemberReference)
    } else if code == 0x28 {
        Some(HandleType::Method)
    } else if code == 0x29 {
        Some(HandleType::MethodInstantiation)
    } else if code == 0x2a {
        Some(HandleType::MethodSemantics)
    } else if code == 0x2b {
        Some(HandleType::MethodSignature)
    } else if code == 0x2c {
        Some(HandleType::MethodTypeVariableSignature)
    } else if code == 0x2d {
        Some(HandleType::ModifiedType)
    } else if code == 0x2e {
        Some(HandleType::NamedArgument)
    } else if code == 0x2f {
        Some(HandleType::NamespaceDefinition)
    } else if code == 0x30 {
        Some(HandleType::NamespaceReference)
    } else if code == 0x31 {
        Some(HandleType::Parameter)
    } else if code == 0x32 {
        Some(HandleType::PointerSignature)
    } else if code == 0x33 {
        Some(HandleType::Property)
    } else if code == 0x34 {
        Some(HandleType::PropertySignature)
    } else if code == 0x35 {
        Some(HandleType::QualifiedField)
    } else if code == 0x36 {
        Some(HandleType::QualifiedMethod)
    } else if code == 0x37 {
        Some(HandleType::SZArraySignature)
    } else if code == 0x38 {
        Some(HandleType::ScopeDefinition)
    } else if code == 0x39 {
        Some(HandleType::ScopeReference)
    } else if code == 0x3a {
        Some(HandleType::TypeDefinition)
    } else if code == 0x3b {
        Some(HandleType::TypeForwarder)
    } else if code == 0x3c {
        Some(HandleType::TypeInstantiationSignature)
    } else if code == 0x3d {
        Some(HandleType::TypeReference)
    } else if code == 0x3e {
        Some(HandleType::TypeSpecification)
    } else if code == 0x3f {
        Some(HandleType::TypeVariableSignature)
    } else if code == 0xff {
        Some(HandleType::Invalid)
    } else {
        None
    }
}

impl HandleType {
    /// The number that stands for the kind.
    pub open spec fn spec_code(self) -> int {
        match self {
            HandleType::Null => 0x00,
            HandleType::ArraySignature => 0x01,
            HandleType::ByReferenceSignature => 0x02,
            HandleType::ConstantBooleanArray => 0x03,
            HandleType::ConstantBooleanValue => 0x04,
            HandleType::ConstantByteArray => 0x05,
            HandleType::ConstantByteValue => 0x06,
            HandleType::ConstantCharArray => 0x07,
            HandleType::ConstantCharValue => 0x08,
            HandleType::ConstantDoubleArray => 0x09,
            HandleType::ConstantDoubleValue => 0x0a,
            HandleType::ConstantEnumArray => 0x0b,
            HandleType::ConstantEnumValue => 0x0c,
            HandleType::ConstantHandleArray => 0x0d,
            HandleType::ConstantInt16Array => 0x0e,
            HandleType::ConstantInt16Value => 0x0f,
            HandleType::ConstantInt32Array => 0x10,
            HandleType::ConstantInt32Value => 0x11,
            HandleType::ConstantInt64Array => 0x12,
            HandleType::ConstantInt64Value => 0x13,
            HandleType::ConstantReferenceValue => 0x14,
            HandleType::ConstantSByteArray => 0x15,
            HandleType::ConstantSByteValue => 0x16,
            HandleType::ConstantSingleArray => 0x17,
            HandleType::ConstantSingleValue => 0x18,
            HandleType::ConstantStringArray => 0x19,
            HandleType::ConstantStringValue => 0x1a,
            HandleType::ConstantUInt16Array => 0x1b,
            HandleType::ConstantUInt16Value => 0x1c,
            HandleType::ConstantUInt32Array => 0x1d,
            HandleType::ConstantUInt32Value => 0x1e,
            HandleType::ConstantUInt64Array => 0x1f,
            HandleType::ConstantUInt64Value => 0x20,
            HandleType::CustomAttribute => 0x21,
            HandleType::Event => 0x22,
            HandleType::Field => 0x23,
            HandleType::FieldSignature => 0x24,
            HandleType::FunctionPointerSignature => 0x25,
            HandleType::GenericParameter => 0x26,
            HandleType::MemberReference => 0x27,
            HandleType::Method => 0x28,
            HandleType::MethodInstantiation => 0x29,
            HandleType::MethodSemantics => 0x2a,
            HandleType::MethodSignature => 0x2b,
            HandleType::MethodTypeVariableSignature => 0x2c,
            HandleType::ModifiedType => 0x2d,
            HandleType::NamedArgument => 0x2e,
            HandleType::NamespaceDefinition => 0x2f,
            HandleType::NamespaceReference => 0x30,
            HandleType::Parameter => 0x31,
            HandleType::PointerSignature => 0x32,
            HandleType::Property => 0x33,
            HandleType::PropertySignature => 0x34,
            HandleType::QualifiedField => 0x35,
            HandleType::QualifiedMethod => 0x36,
            HandleType::SZArraySignature => 0x37,
            HandleType::ScopeDefinition => 0x38,
            HandleType::ScopeReference => 0x39,
            HandleType::TypeDefinition => 0x3a,
            HandleType::TypeForwarder => 0x3b,
            HandleType::TypeInstantiationSignature => 0x3c,
            HandleType::TypeReference => 0x3d,
            HandleType::TypeSpecification => 0x3e,
            HandleType::TypeVariableSignature => 0x3f,
            HandleType::Invalid => 0xff,
        }
    }

    /// The name of the kind.
    pub open spec fn spec_name(self) -> Seq<char> {
        match self {
            HandleType::Null => "Null"@,
            HandleType::ArraySignature => "ArraySignature"@,
            HandleType::ByReferenceSignature => "ByReferenceSignature"@,
            HandleType::ConstantBooleanArray => "ConstantBooleanArray"@,
            HandleType::ConstantBooleanValue => "ConstantBooleanValue"@,
            HandleType::ConstantByteArray => "ConstantByteArray"@,
            HandleType::ConstantByteValue => "ConstantByteValue"@,
            HandleType::ConstantCharArray => "ConstantCharArray"@,
            HandleType::ConstantCharValue => "ConstantCharValue"@,
            HandleType::ConstantDoubleArray => "ConstantDoubleArray"@,
            HandleType::ConstantDoubleValue => "ConstantDoubleValue"@,
            HandleType::ConstantEnumArray => "ConstantEnumArray"@,
            HandleType::ConstantEnumValue => "ConstantEnumValue"@,
            HandleType::ConstantHandleArray => "ConstantHandleArray"@,
            HandleType::ConstantInt16Array => "ConstantInt16Array"@,
            HandleType::ConstantInt16Value => "ConstantInt16Value"@,
            HandleType::ConstantInt32Array => "ConstantInt32Array"@,
            HandleType::ConstantInt32Value => "ConstantInt32Value"@,
            HandleType::ConstantInt64Array => "ConstantInt64Array"@,
            HandleType::ConstantInt64Value => "ConstantInt64Value"@,
            HandleType::ConstantReferenceValue => "ConstantReferenceValue"@,
            HandleType::ConstantSByteArray => "ConstantSByteArray"@,
            HandleType::ConstantSByteValue => "ConstantSByteValue"@,
            HandleType::ConstantSingleArray => "ConstantSingleArray"@,
            HandleType::ConstantSingleValue => "ConstantSingleValue"@,
            HandleType::ConstantStringArray => "ConstantStringArray"@,
            HandleType::ConstantStringValue => "ConstantStringValue"@,
            HandleType::ConstantUInt16Array => "ConstantUInt16Array"@,
            HandleType::ConstantUInt16Value => "ConstantUInt16Value"@,
            HandleType::ConstantUInt32Array => "ConstantUInt32Array"@,
            HandleType::ConstantUInt32Value => "ConstantUInt32Value"@,
            HandleType::ConstantUInt64Array => "ConstantUInt64Array"@,
            HandleType::ConstantUInt64Value => "ConstantUInt64Value"@,
            HandleType::CustomAttribute => "CustomAttribute"@,
            HandleType::Event => "Event"@,
            HandleType::Field => "Field"@,
            HandleType::FieldSignature => "FieldSignature"@,
            HandleType::FunctionPointerSignature => "FunctionPointerSignature"@,
            HandleType::GenericParameter => "GenericParameter"@,
            HandleType::MemberReference => "MemberReference"@,
            HandleType::Method => "Method"@,
            HandleType::MethodInstantiation => "MethodInstantiation"@,
            HandleType::MethodSemantics => "MethodSemantics"@,
            HandleType::MethodSignature => "MethodSignature"@,
            HandleType::MethodTypeVariableSignature => "MethodTypeVariableSignature"@,
            HandleType::ModifiedType => "ModifiedType"@,
            HandleType::NamedArgument => "NamedArgument"@,
            HandleType::NamespaceDefinition => "NamespaceDefinition"@,
            HandleType::NamespaceReference => "NamespaceReference"@,
            HandleType::Parameter => "Parameter"@,
            HandleType::PointerSignature => "PointerSignature"@,
            HandleType::Property => "Property"@,
            HandleType::PropertySignature => "PropertySignature"@,
            HandleType::QualifiedField => "QualifiedField"@,
            HandleType::QualifiedMethod => "QualifiedMethod"@,
            HandleType::SZArraySignature => "SZArraySignature"@,
            HandleType::ScopeDefinition => "ScopeDefinition"@,
            HandleType::ScopeReference => "ScopeReference"@,
            HandleType::TypeDefinition => "TypeDefinition"@,
            HandleType::TypeForwarder => "TypeForwarder"@,
            HandleType::TypeInstantiationSignature => "TypeInstantiationSignature"@,
            HandleType::TypeReference => "TypeReference"@,
            HandleType::TypeSpecification => "TypeSpecification"@,
            HandleType::TypeVariableSignature => "TypeVariableSignature"@,
            HandleType::Invalid => "Invalid"@,
        }
    }

    /// The kind that `code` stands for.
    pub fn from_u8(code: u8) -> (r: Option<HandleType>)
        ensures
            r == spec_handle_type_from_code(code as int),
    {
        match code {
            0x00 => Some(HandleType::Null),
            0x01 => Some(HandleType::ArraySignature),
            0x02 => Some(HandleType::ByReferenceSignature),
            0x03 => Some(HandleType::ConstantBooleanArray),
            0x04 => Some(HandleType::ConstantBooleanValue),
            0x05 => Some(HandleType::ConstantByteArray),
            0x06 => Some(HandleType::ConstantByteValue),
            0x07 => Some(HandleType::ConstantCharArray),
            0x08 => Some(HandleType::ConstantCharValue),
            0x09 => Some(HandleType::ConstantDoubleArray),
            0x0a => Some(HandleType::ConstantDoubleValue),
            0x0b => Some(HandleType::ConstantEnumArray),
            0x0c => Some(HandleType::ConstantEnumValue),
            0x0d => Some(HandleType::ConstantHandleArray),
            0x0e => Some(HandleType::ConstantInt16Array),
            0x0f => Some(HandleType::ConstantInt16Value),
            0x10 => Some(HandleType::ConstantInt32Array),
            0x11 => Some(HandleType::ConstantInt32Value),
            0x12 => Some(HandleType::ConstantInt64Array),
            0x13 => Some(HandleType::ConstantInt64Value),
            0x14 => Some(HandleType::ConstantReferenceValue),
            0x15 => Some(HandleType::ConstantSByteArray),
            0x16 => Some(HandleType::ConstantSByteValue),
            0x17 => Some(HandleType::ConstantSingleArray),
            0x18 => Some(HandleType::ConstantSingleValue),
            0x19 => Some(HandleType::ConstantStringArray),
            0x1a => Some(HandleType::ConstantStringValue),
            0x1b => Some(HandleType::ConstantUInt16Array),
            0x1c => Some(HandleType::ConstantUInt16Value),
            0x1d => Some(HandleType::ConstantUInt32Array),
            0x1e => Some(HandleType::ConstantUInt32Value),
            0x1f => Some(HandleType::ConstantUInt64Array),
            0x20 => Some(HandleType::ConstantUInt64Value),
            0x21 => Some(HandleType::CustomAttribute),
            0x22 => Some(HandleType::Event),
            0x23 => Some(HandleType::Field),
            0x24 => Some(HandleType::FieldSignature),
            0x25 => Some(HandleType::FunctionPointerSignature),
            0x26 => Some(HandleType::GenericParameter),
            0x27 => Some(HandleType::MemberReference),
            0x28 => Some(HandleType::Method),
            0x29 => Some(HandleType::MethodInstantiation),
            0x2a => Some(HandleType::MethodSemantics),
            0x2b => Some(HandleType::MethodSignature),
            0x2c => Some(HandleType::MethodTypeVariableSignature),
            0x2d => Some(HandleType::ModifiedType),
            0x2e => Some(HandleType::NamedArgument),
            0x2f => Some(HandleType::NamespaceDefinition),
            0x30 => Some(HandleType::NamespaceReference),
            0x31 => Some(HandleType::Parameter),
            0x32 => Some(HandleType::PointerSignature),
            0x33 => Some(HandleType::Property),
            0x34 => Some(HandleType::PropertySignature),
            0x35 => Some(HandleType::QualifiedField),
            0x36 => Some(HandleType::QualifiedMethod),
            0x37 => Some(HandleType::SZArraySignature),
            0x38 => Some(HandleType::ScopeDefinition),
            0x39 => Some(HandleType::ScopeReference),
            0x3a => Some(HandleType::TypeDefinition),
            0x3b => Some(HandleType::TypeForwarder),
            0x3c => Some(HandleType::TypeInstantiationSignature),
            0x3d => Some(HandleType::TypeReference),
            0x3e => Some(HandleType::TypeSpecification),
            0x3f => Some(HandleType::TypeVariableSignature),
            0xff => Some(HandleType::Invalid),
            _ => None,
        }
    }

    /// The number that stands for the kind.
    pub fn to_u8(self) -> (code: u8)
        ensures
            code == self.spec_code(),
            spec_handle_type_from_code(code as int) == Some(self),
    {
        match self {
            HandleType::Null => 0x00,
            HandleType::ArraySignature => 0x01,
            HandleType::ByReferenceSignature => 0x02,
            HandleType::ConstantBooleanArray => 0x03,
            HandleType::ConstantBooleanValue => 0x04,
            HandleType::ConstantByteArray => 0x05,
            HandleType::ConstantByteValue => 0x06,
            HandleType::ConstantCharArray => 0x07,
            HandleType::ConstantCharValue => 0x08,
            HandleType::ConstantDoubleArray => 0x09,
            HandleType::ConstantDoubleValue => 0x0a,
            HandleType::ConstantEnumArray => 0x0b,
            HandleType::ConstantEnumValue => 0x0c,
            HandleType::ConstantHandleArray => 0x0d,
            HandleType::ConstantInt16Array => 0x0e,
            HandleType::ConstantInt16Value => 0x0f,
            HandleType::ConstantInt32Array => 0x10,
            HandleType::ConstantInt32Value => 0x11,
            HandleType::ConstantInt64Array => 0x12,
            HandleType::ConstantInt64Value => 0x13,
            HandleType::ConstantReferenceValue => 0x14,
            HandleType::ConstantSByteArray => 0x15,
            HandleType::ConstantSByteValue => 0x16,
            HandleType::ConstantSingleArray => 0x17,
            HandleType::ConstantSingleValue => 0x18,
            HandleType::ConstantStringArray => 0x19,
            HandleType::ConstantStringValue => 0x1a,
            HandleType::ConstantUInt16Array => 0x1b,
            HandleType::ConstantUInt16Value => 0x1c,
            HandleType::ConstantUInt32Array => 0x1d,
            HandleType::ConstantUInt32Value => 0x1e,
            HandleType::ConstantUInt64Array => 0x1f,
            HandleType::ConstantUInt64Value => 0x20,
            HandleType::CustomAttribute => 0x21,
            HandleType::Event => 0x22,
            HandleType::Field => 0x23,
            HandleType::FieldSignature => 0x24,
            HandleType::FunctionPointerSignature => 0x25,
            HandleType::GenericParameter => 0x26,
            HandleType::MemberReference => 0x27,
            HandleType::Method => 0x28,
            HandleType::MethodInstantiation => 0x29,
            HandleType::MethodSemantics => 0x2a,
            HandleType::MethodSignature => 0x2b,
            HandleType::MethodTypeVariableSignature => 0x2c,
            HandleType::ModifiedType => 0x2d,
            HandleType::NamedArgument => 0x2e,
            HandleType::NamespaceDefinition => 0x2f,
            HandleType::NamespaceReference => 0x30,
            HandleType::Parameter => 0x31,
            HandleType::PointerSignature => 0x32,
            HandleType::Property => 0x33,
            HandleType::PropertySignature => 0x34,
            HandleType::QualifiedField => 0x35,
            HandleType::QualifiedMethod => 0x36,
            HandleType::SZArraySignature => 0x37,
            HandleType::ScopeDefinition => 0x38,
            HandleType::ScopeReference => 0x39,
            HandleType::TypeDefinition => 0x3a,
            HandleType::TypeForwarder => 0x3b,
            HandleType::TypeInstantiationSignature => 0x3c,
            HandleType::TypeReference => 0x3d,
            HandleType::TypeSpecification => 0x3e,
            HandleType::TypeVariableSignature => 0x3f,
            HandleType::Invalid => 0xff,
        }
    }

    /// The name of the kind.
    pub fn name(self) -> (name: &'static str)
        ensures
            name@ == self.spec_name(),
    {
        match self {
            HandleType::Null => "Null",
            HandleType::ArraySignature => "ArraySignature",
            HandleType::ByReferenceSignature => "ByReferenceSignature",
            HandleType::ConstantBooleanArray => "ConstantBooleanArray",
            HandleType::ConstantBooleanValue => "ConstantBooleanValue",
            HandleType::ConstantByteArray => "ConstantByteArray",
            HandleType::ConstantByteValue => "ConstantByteValue",
            HandleType::ConstantCharArray => "ConstantCharArray",
            HandleType::ConstantCharValue => "ConstantCharValue",
            HandleType::ConstantDoubleArray => "ConstantDoubleArray",
            HandleType::ConstantDoubleValue => "ConstantDoubleValue",
            HandleType::ConstantEnumArray => "ConstantEnumArray",
            HandleType::ConstantEnumValue => "ConstantEnumValue",
            HandleType::ConstantHandleArray => "ConstantHandleArray",
            HandleType::ConstantInt16Array => "ConstantInt16Array",
            HandleType::ConstantInt16Value => "ConstantInt16Value",
            HandleType::ConstantInt32Array => "ConstantInt32Array",
            HandleType::ConstantInt32Value => "ConstantInt32Value",
            HandleType::ConstantInt64Array => "ConstantInt64Array",
            HandleType::ConstantInt64Value => "ConstantInt64Value",
            HandleType::ConstantReferenceValue => "ConstantReferenceValue",
            HandleType::ConstantSByteArray => "ConstantSByteArray",
            HandleType::ConstantSByteValue => "ConstantSByteValue",
            HandleType::ConstantSingleArray => "ConstantSingleArray",
            HandleType::ConstantSingleValue => "ConstantSingleValue",
            HandleType::ConstantStringArray => "ConstantStringArray",
            HandleType::ConstantStringValue => "ConstantStringValue",
            HandleType::ConstantUInt16Array => "ConstantUInt16Array",
            HandleType::ConstantUInt16Value => "ConstantUInt16Value",
            HandleType::ConstantUInt32Array => "ConstantUInt32Array",
            HandleType::ConstantUInt32Value => "ConstantUInt32Value",
            HandleType::ConstantUInt64Array => "ConstantUInt64Array",
            HandleType::ConstantUInt64Value => "ConstantUInt64Value",
            HandleType::CustomAttribute => "CustomAttribute",
            HandleType::Event => "Event",
            HandleType::Field => "Field",
            HandleType::FieldSignature => "FieldSignature",
            HandleType::FunctionPointerSignature => "FunctionPointerSignature",
            HandleType::GenericParameter => "GenericParameter",
            HandleType::MemberReference => "MemberReference",
            HandleType::Method => "Method",
            HandleType::MethodInstantiation => "MethodInstantiation",
            HandleType::MethodSemantics => "MethodSemantics",
            HandleType::MethodSignature => "MethodSignature",
            HandleType::MethodTypeVariableSignature => "MethodTypeVariableSignature",
            HandleType::ModifiedType => "ModifiedType",
            HandleType::NamedArgument => "NamedArgument",
            HandleType::NamespaceDefinition => "NamespaceDefinition",
            HandleType::NamespaceReference => "NamespaceReference",
            HandleType::Parameter => "Parameter",
            HandleType::PointerSignature => "PointerSignature",
            HandleType::Property => "Property",
            HandleType::PropertySignature => "PropertySignature",
            HandleType::QualifiedField => "QualifiedField",
            HandleType::QualifiedMethod => "QualifiedMethod",
            HandleType::SZArraySignature => "SZArraySignature",
            HandleType::ScopeDefinition => "ScopeDefinition",
            HandleType::ScopeReference => "ScopeReference",
            HandleType::TypeDefinition => "TypeDefinition",
            HandleType::TypeForwarder => "TypeForwarder",
            HandleType::TypeInstantiationSignature => "TypeInstantiationSignature",
            HandleType::TypeReference => "TypeReference",
            HandleType::TypeSpecification => "TypeSpecification",
            HandleType::TypeVariableSignature => "TypeVariableSignature",
            HandleType::Invalid => "Invalid",
        }
    }
}

/// The kind that the topmost seven bits of `value` name.
pub open spec fn spec_kind_code(value: u32) -> int {
    value as int / 0x200_0000
}

/// The offset that the lower 25 bits of `value` hold.
pub open spec fn spec_offset_bits(value: u32) -> int {
    value as int % 0x200_0000
}

/// A value that is a handle: the kind of a record in the topmost seven bits
/// and the offset of the record in the lower 25, where offset zero means
/// that there is no record.
pub trait Handle: Sized {
    /// The handle that `value` is read as, or why it is none.
    spec fn spec_from_value(value: u32) -> Result<Self, AotError>;

    /// The 32 bits of the handle.
    spec fn spec_to_value(&self) -> u32;

    fn from_value(value: u32) -> (r: Result<Self, AotError>)
        ensures
            r == Self::spec_from_value(value),
    ;

    fn to_value(&self) -> (value: u32)
        ensures
            value == self.spec_to_value(),
    ;

    /// The same handle without its brand.
    fn to_base(self) -> (base: BaseHandle)
        ensures
            base.0 == self.spec_to_value(),
    ;
}

/// A handle to a record of any kind.
#[derive(Clone, Copy, PartialEq, Eq, Structural)]
pub struct BaseHandle(pub u32);

impl Handle for BaseHandle {
    /// A handle of any kind is read from the packed form, which holds the
    /// kind in the lowest seven bits and the offset above them.
    open spec fn spec_from_value(value: u32) -> Result<Self, AotError> {
        Ok(BaseHandle(((value as int % 0x80) * 0x200_0000 + value as int / 0x80) as u32))
    }

    open spec fn spec_to_value(&self) -> u32 {
        self.0
    }

    fn from_value(value: u32) -> (r: Result<Self, AotError>) {
        let handle_type: u32 = value % 0x80;
        let offset: u32 = value / 0x80;
        Ok(Self(handle_type * 0x200_0000 + offset))
    }

    fn to_value(&self) -> (value: u32) {
        self.0
    }

    fn to_base(self) -> (base: BaseHandle) {
        self
    }
}

impl BaseHandle {
    /// The handle whose 32 bits are `value`.
    pub fn from_raw(value: u32) -> (handle: Self)
        ensures
            handle.0 == value,
    {
        Self(value)
    }

    /// The handle with the brand of `H`, where its kind allows that.
    pub fn to_handle<H: Handle>(self) -> (r: Result<H, AotError>)
        ensures
            r == H::spec_from_value(self.0),
    {
        H::from_value(self.0)
    }

    /// The kind of the handle; `None` where the topmost seven bits name no
    /// kind.
    pub fn handle_type(&self) -> (kind: Option<HandleType>)
        ensures
            kind == spec_handle_type_from_code(spec_kind_code(self.0)),
    {
        HandleType::from_u8((self.0 / 0x200_0000) as u8)
    }

    /// The offset of the record.
    pub fn offset(&self) -> (offset: u32)
        ensures
            offset == spec_offset_bits(self.0),
    {
        self.0 % 0x200_0000
    }

    /// Whether the handle points to no record.
    pub fn is_nil(&self) -> (nil: bool)
        ensures
            nil == (spec_offset_bits(self.0) == 0),
    {
        self.0 % 0x200_0000 == 0
    }
}

/// A handle with a brand: it points to a record of the kind `KIND` or to
/// none.
#[derive(Clone, Copy)]
pub struct TypedHandle<const KIND: u8> {
    raw: u32,
}

impl<const KIND: u8> Handle for TypedHandle<KIND> {
    /// A value is taken for a handle of the kind `KIND` where its topmost
    /// seven bits name that kind or the null kind. The handle then carries
    /// `KIND` in those bits.
    open spec fn spec_from_value(value: u32) -> Result<Self, AotError> {
        if KIND > 0x3f || spec_handle_type_from_code(spec_kind_code(value)) is None || (
        spec_kind_code(value) != KIND && spec_kind_code(value) != 0) {
            Err(AotError::InvalidMetaHandle)
        } else {
            Ok(Self::spec_at(spec_offset_bits(value)))
        }
    }

    open spec fn spec_to_value(&self) -> u32 {
        self.spec_bits()
    }

    fn from_value(value: u32) -> (r: Result<Self, AotError>) {
        if KIND > 0x3f {
            return Err(AotError::InvalidMetaHandle);
        }
        let code: u8 = (value / 0x200_0000) as u8;
        if HandleType::from_u8(code).is_none() {
            return Err(AotError::InvalidMetaHandle);
        }
        if code != KIND && code != 0 {
            return Err(AotError::InvalidMetaHandle);
        }
        Ok(TypedHandle { raw: value % 0x200_0000 + (KIND as u32) * 0x200_0000 })
    }

    fn to_value(&self) -> (value: u32)
        ensures
            spec_kind_code(value) == KIND,
    {
        proof {
            use_type_invariant(self);
        }
        self.raw
    }

    fn to_base(self) -> (base: BaseHandle)
        ensures
            spec_kind_code(base.0) == KIND,
    {
        proof {
            use_type_invariant(&self);
        }
        BaseHandle(self.raw)
    }
}

impl<const KIND: u8> TypedHandle<KIND> {
    /// A handle carries its kind in its topmost seven bits.
    #[verifier::type_invariant]
    spec fn well_formed(&self) -> bool {
        spec_kind_code(self.raw) == KIND
    }

    /// The 32 bits of the handle.
    pub closed spec fn spec_bits(&self) -> u32 {
        self.raw
    }

    /// The handle of the kind `KIND` to the record at `offset`.
    pub closed spec fn spec_at(offset: int) -> Self {
        TypedHandle { raw: (offset + KIND * 0x200_0000) as u32 }
    }

    /// The handle to the record at `offset` holds the kind above the
    /// offset.
    pub broadcast proof fn lemma_value_of_handle_at(offset: int)
        requires
            0 <= offset < 0x200_0000,
            KIND <= 0x7f,
        ensures
            (#[trigger] Self::spec_at(offset)).spec_bits() == offset + KIND * 0x200_0000,
    {
    }

    /// Two handles of one kind with the same bits are the same handle.
    pub broadcast proof fn lemma_handles_equal_by_value(self, other: Self)
        requires
            #[trigger] self.spec_bits() == #[trigger] other.spec_bits(),
        ensures
            self == other,
    {
    }

    /// The offset of the record.
    pub fn offset(&self) -> (offset: u32)
        ensures
            offset == spec_offset_bits(self.spec_bits()),
    {
        self.raw % 0x200_0000
    }

    /// Whether the handle points to no record.
    pub fn is_nil(&self) -> (nil: bool)
        ensures
            nil == (spec_offset_bits(self.spec_bits()) == 0),
    {
        self.raw % 0x200_0000 == 0
    }
}

pub type ByReferenceSignatureHandle = TypedHandle<0x02>;

pub type ConstantStringValueHandle = TypedHandle<0x1a>;

pub type CustomAttributeHandle = TypedHandle<0x21>;

pub type EventHandle = TypedHandle<0x22>;

pub type FieldHandle = TypedHandle<0x23>;

pub type FieldSignatureHandle = TypedHandle<0x24>;

pub type GenericParameterHandle = TypedHandle<0x26>;

pub type MethodHandle = TypedHandle<0x28>;

pub type MethodSignatureHandle = TypedHandle<0x2b>;

pub type MethodTypeVariableSignatureHandle = TypedHandle<0x2c>;

pub type NamespaceDefinitionHandle = TypedHandle<0x2f>;

pub type ParameterHandle = TypedHandle<0x31>;

pub type PropertyHandle = TypedHandle<0x33>;

pub type QualifiedMethodHandle = TypedHandle<0x36>;

pub type ScopeDefinitionHandle = TypedHandle<0x38>;

pub type TypeDefinitionHandle = TypedHandle<0x3a>;

pub type TypeForwarderHandle = TypedHandle<0x3b>;

pub type TypeInstantiationSignatureHandle = TypedHandle<0x3c>;

pub type TypeSpecificationHandle = TypedHandle<0x3e>;

pub type TypeVariableSignatureHandle = TypedHandle<0x3f>;

/// The handle of any kind that is encoded at `offset`, and the offset behind
/// it.
pub open spec fn spec_read_base_handle(data: Seq<u8>, offset: int) -> (
    Result<BaseHandle, AotError>,
    int,
) {
    match spec_decode_unsigned(data, offset) {
        Some((value, next)) => (BaseHandle::spec_from_value(value), next),
        None => (Err(AotError::BadImage), offset),
    }
}

/// The handle of the kind `KIND` that is encoded at `offset`, and the offset
/// behind the encoding. A value of another kind is an error, behind which
/// reading can go on.
pub open spec fn spec_read_handle<const KIND: u8>(data: Seq<u8>, offset: int) -> (
    Result<TypedHandle<KIND>, AotError>,
    int,
) {
    match spec_decode_unsigned(data, offset) {
        Some((value, next)) => (TypedHandle::<KIND>::spec_from_value(value), next),
        None => (Err(AotError::BadImage), offset),
    }
}

/// Reads a handle of any kind and moves `offset` behind it.
pub fn read_base_handle(reader: &NativeReader<'_>, offset: &mut usize) -> (r: Result<
    BaseHandle,
    AotError,
>)
    ensures
        (r, *final(offset) as int) == spec_read_base_handle(reader@, *old(offset) as int),
{
    match reader.decode_unsigned(offset) {
        Ok(value) => BaseHandle::from_value(value),
        Err(e) => Err(e),
    }
}

/// Reads a handle of the kind `KIND` and moves `offset` behind it.
pub fn read_handle<const KIND: u8>(reader: &NativeReader<'_>, offset: &mut usize) -> (r: Result<
    TypedHandle<KIND>,
    AotError,
>)
    ensures
        (r, *final(offset) as int) == spec_read_handle::<KIND>(reader@, *old(offset) as int),
{
    match reader.decode_unsigned(offset) {
        Ok(value) => TypedHandle::<KIND>::from_value(value),
        Err(e) => Err(e),
    }
}

} // verus!
