//! PDF object types and their encodings.
pub mod assign_object_number;
pub mod boolean;
pub mod indirect;
pub mod metadata;
pub mod pdf_array;
pub mod name;
pub mod null;
pub mod pdf_boolean;
pub mod pdf_dictionary;
pub mod pdf_name;
pub mod pdf_null;
pub mod pdf_object;
pub mod pdf_reference;
pub mod pdf_string;
pub mod reference;
pub mod stream;
pub mod string;
